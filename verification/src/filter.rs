//! The filter engine: construction, insertion, membership query, bit
//! counting, and the union and intersection of two same-shaped filters.

use vstd::prelude::*;
use crate::digest::dec_digits;
use crate::digest::hash_input;
use crate::digest::hex_mod;
use crate::digest::hex_to_nat;
use crate::digest::sha1_hex;
use crate::digest::sha1_hex_of;

verus! {

/// Why a filter operation was refused.
#[derive(Debug, Clone, Copy, PartialEq, Eq, Structural)]
pub enum BloomError {
    /// A filter was requested with no bit positions or no hash slots.
    InvalidConfiguration,
    /// Two filters of differing capacity or hash count were combined.
    ShapeMismatch,
}

/// The mathematical content of a filter: its shape, its salt, and one flag
/// per bit position.
#[verifier::ext_equal]
pub ghost struct FilterModel {
    /// Number of bit positions.
    pub capacity: nat,
    /// Number of index positions derived per element.
    pub hashes: int,
    /// String mixed into every digest input.
    pub salt: Seq<char>,
    /// The flags, indexed `0 .. capacity`.
    pub bits: Seq<bool>,
}

impl FilterModel {
    /// A filter is well formed when its shape is positive and it holds one
    /// flag per bit position.
    pub open spec fn wf(self) -> bool {
        self.capacity > 0 && self.hashes > 0 && self.bits.len() == self.capacity
    }
}

/// The bit position that hash slot `i` derives for an element: the digest of
/// `salt ++ element ++ decimal(i)` read as a hexadecimal numeral, reduced
/// modulo the capacity.
pub open spec fn derived_index(salt: Seq<char>, element: Seq<char>, i: nat, capacity: nat) -> nat
    recommends
        capacity > 0,
{
    hex_to_nat(sha1_hex_of(salt + element + dec_digits(i))) % capacity
}

/// The bit position that hash slot `q` of filter `f` derives for `e`.
pub open spec fn model_index(f: FilterModel, e: Seq<char>, q: int) -> int {
    derived_index(f.salt, e, q as nat, f.capacity) as int
}

/// Whether one of the hash slots `0 .. upto` of `f` derives position `j`
/// for `e`.
pub open spec fn hit_before(f: FilterModel, e: Seq<char>, upto: int, j: int) -> bool {
    exists|q: int| 0 <= q < upto && model_index(f, e, q) == j
}

/// The bits of `f` after the positions that slots `0 .. upto` derive for `e`
/// have been set.
pub open spec fn bits_after(f: FilterModel, e: Seq<char>, upto: int) -> Seq<bool> {
    Seq::new(f.bits.len(), |j: int| f.bits[j] || hit_before(f, e, upto, j))
}

/// The filter after `e` has been added: every position some hash slot
/// derives for `e` is set, and nothing else changes.
pub open spec fn spec_add(f: FilterModel, e: Seq<char>) -> FilterModel {
    FilterModel { bits: bits_after(f, e, f.hashes), ..f }
}

/// Whether `f` reports `e` present: every hash slot's derived position
/// is set.
pub open spec fn spec_contains(f: FilterModel, e: Seq<char>) -> bool {
    forall|q: int| 0 <= q < f.hashes ==> f.bits[#[trigger] model_index(f, e, q)]
}

/// A fresh filter: the given shape and salt, and no flag set.
pub open spec fn spec_new(capacity: nat, hashes: int, salt: Seq<char>) -> FilterModel {
    FilterModel { capacity, hashes, salt, bits: Seq::new(capacity, |j: int| false) }
}

/// The pointwise disjunction of two flag sequences, at the length of the
/// first.
pub open spec fn or_bits(a: Seq<bool>, b: Seq<bool>) -> Seq<bool> {
    Seq::new(a.len(), |j: int| a[j] || b[j])
}

/// The pointwise conjunction of two flag sequences, at the length of the
/// first.
pub open spec fn and_bits(a: Seq<bool>, b: Seq<bool>) -> Seq<bool> {
    Seq::new(a.len(), |j: int| a[j] && b[j])
}

/// The union of two same-shaped filters: their bits joined pointwise, under
/// an empty salt.
pub open spec fn spec_union(a: FilterModel, b: FilterModel) -> FilterModel {
    FilterModel {
        capacity: a.capacity,
        hashes: a.hashes,
        salt: Seq::empty(),
        bits: or_bits(a.bits, b.bits),
    }
}

/// The intersection of two same-shaped filters: their bits met pointwise,
/// under an empty salt.
pub open spec fn spec_intersection(a: FilterModel, b: FilterModel) -> FilterModel {
    FilterModel {
        capacity: a.capacity,
        hashes: a.hashes,
        salt: Seq::empty(),
        bits: and_bits(a.bits, b.bits),
    }
}

/// How many flags of `s` are set.
pub open spec fn count_true(s: Seq<bool>) -> nat
    decreases s.len(),
{
    if s.len() == 0 {
        0
    } else {
        count_true(s.drop_last()) + (if s.last() {
            1nat
        } else {
            0nat
        })
    }
}

/// A Bloom filter over strings.
pub struct BloomFilter {
    size: usize,
    number_hashes: i32,
    salt: String,
    bit_array: Vec<bool>,
}

impl View for BloomFilter {
    type V = FilterModel;

    closed spec fn view(&self) -> FilterModel {
        FilterModel {
            capacity: self.size as nat,
            hashes: self.number_hashes as int,
            salt: self.salt@,
            bits: self.bit_array@,
        }
    }
}

impl BloomFilter {
    /// A filter is well formed when its model is.
    pub open spec fn wf(&self) -> bool {
        self@.wf()
    }

    /// A fresh filter of the given shape with no salt. Refused when the
    /// capacity or the hash count is not positive.
    pub fn new(size: usize, number_hashes: i32) -> (r: Result<Self, BloomError>)
        ensures
            match r {
                Ok(f) => size > 0 && number_hashes > 0 && f.wf() && f@ == spec_new(
                    size as nat,
                    number_hashes as int,
                    Seq::<char>::empty(),
                ),
                Err(e) => e == BloomError::InvalidConfiguration && (size == 0 || number_hashes
                    <= 0),
            },
    {
        proof {
            reveal_strlit("");
            assert(""@ =~= Seq::<char>::empty());
        }
        Self::new_with_salt(size, number_hashes, "")
    }

    /// A fresh filter of the given shape and salt: an all-zero bit sequence
    /// of length `size`. Refused when the capacity or the hash count is not
    /// positive.
    pub fn new_with_salt(size: usize, number_hashes: i32, salt: &str) -> (r: Result<
        Self,
        BloomError,
    >)
        ensures
            match r {
                Ok(f) => size > 0 && number_hashes > 0 && f.wf() && f@ == spec_new(
                    size as nat,
                    number_hashes as int,
                    salt@,
                ),
                Err(e) => e == BloomError::InvalidConfiguration && (size == 0 || number_hashes
                    <= 0),
            },
    {
        if size == 0 || number_hashes <= 0 {
            return Err(BloomError::InvalidConfiguration);
        }
        let mut bit_array: Vec<bool> = Vec::new();
        let mut j: usize = 0;
        while j < size
            invariant
                j <= size,
                bit_array@ == Seq::new(j as nat, |q: int| false),
            decreases size - j,
        {
            bit_array.push(false);
            j = j + 1;
            proof {
                assert(bit_array@ =~= Seq::new(j as nat, |q: int| false));
            }
        }
        let f = BloomFilter { size, number_hashes, salt: salt.to_owned(), bit_array };
        proof {
            assert(f@ =~= spec_new(size as nat, number_hashes as int, salt@));
        }
        Ok(f)
    }

    /// The bit position that hash slot `i` derives for `element` in this
    /// filter.
    fn derive_index(&self, element: &str, i: u32) -> (idx: usize)
        requires
            self.wf(),
        ensures
            idx < self@.capacity,
            idx as int == model_index(self@, element@, i as int),
    {
        let input = hash_input(self.salt.as_str(), element, i);
        let numeral = sha1_hex(input.as_str());
        hex_mod(numeral.as_str(), self.size)
    }

    /// Sets the positions that the hash slots derive for `element`. Never
    /// fails; the empty string is a valid element.
    pub fn add(&mut self, element: &str)
        requires
            old(self).wf(),
        ensures
            final(self)@ == spec_add(old(self)@, element@),
            final(self).wf(),
    {
        let ghost f0 = self@;
        let k = self.number_hashes;
        let mut i: i32 = 0;
        proof {
            assert(self@.bits =~= bits_after(f0, element@, 0));
        }
        while i < k
            invariant
                0 <= i <= k,
                k == f0.hashes,
                f0.wf(),
                self@.capacity == f0.capacity,
                self@.hashes == f0.hashes,
                self@.salt == f0.salt,
                self@.bits == bits_after(f0, element@, i as int),
            decreases k - i,
        {
            proof {
                assert(self@.bits.len() == f0.bits.len());
                assert(self.wf());
            }
            let idx = self.derive_index(element, i as u32);
            let ghost prev = self@.bits;
            self.bit_array.set(idx, true);
            proof {
                assert(model_index(f0, element@, i as int) == idx as int);
                assert forall|j: int| 0 <= j < f0.bits.len() implies prev.update(idx as int, true)[j]
                    == bits_after(f0, element@, i as int + 1)[j] by {
                    if j == idx as int {
                        assert(0 <= (i as int) && (i as int) < i as int + 1 && model_index(
                            f0,
                            element@,
                            i as int,
                        ) == j);
                        assert(hit_before(f0, element@, i as int + 1, j));
                    } else {
                        if hit_before(f0, element@, i as int + 1, j) {
                            let q = choose|q: int|
                                0 <= q < i as int + 1 && model_index(f0, element@, q) == j;
                            assert(q < i as int);
                            assert(hit_before(f0, element@, i as int, j));
                        }
                        if hit_before(f0, element@, i as int, j) {
                            let q = choose|q: int|
                                0 <= q < i as int && model_index(f0, element@, q) == j;
                            assert(0 <= q < i as int + 1 && model_index(f0, element@, q) == j);
                            assert(hit_before(f0, element@, i as int + 1, j));
                        }
                    }
                }
                assert(self@.bits =~= bits_after(f0, element@, i as int + 1));
            }
            i = i + 1;
        }
        proof {
            assert(self@ =~= spec_add(f0, element@));
        }
    }

    /// Whether every position the hash slots derive for `element` is set.
    /// True for every element previously added; true with no such addition
    /// only on a coincidental overlap (a false positive).
    pub fn lookup(&self, element: &str) -> (r: bool)
        requires
            self.wf(),
        ensures
            r == spec_contains(self@, element@),
    {
        let k = self.number_hashes;
        let mut i: i32 = 0;
        while i < k
            invariant
                0 <= i <= k,
                k == self@.hashes,
                self.wf(),
                forall|q: int| 0 <= q < i ==> self@.bits[#[trigger] model_index(self@, element@, q)],
            decreases k - i,
        {
            let idx = self.derive_index(element, i as u32);
            if !self.bit_array[idx] {
                proof {
                    assert(!self@.bits[model_index(self@, element@, i as int)]);
                }
                return false;
            }
            i = i + 1;
        }
        true
    }

    /// How many bit positions are currently set.
    pub fn count_ones(&self) -> (n: usize)
        ensures
            n as nat == count_true(self@.bits),
            n <= self@.bits.len(),
    {
        let mut n: usize = 0;
        let mut j: usize = 0;
        while j < self.bit_array.len()
            invariant
                j <= self.bit_array.len(),
                n <= j,
                n as nat == count_true(self@.bits.take(j as int)),
            decreases self.bit_array.len() - j,
        {
            let ghost before = self@.bits.take(j as int);
            if self.bit_array[j] {
                n = n + 1;
            }
            j = j + 1;
            proof {
                assert(self@.bits.take(j as int).drop_last() =~= before);
                assert(self@.bits.take(j as int).last() == self@.bits[j - 1]);
            }
        }
        proof {
            assert(self@.bits.take(self@.bits.len() as int) =~= self@.bits);
        }
        n
    }

    /// A new filter of the same shape whose bits are the pointwise OR of the
    /// two operands' bits, under an empty salt. Refused when the shapes
    /// differ; neither operand is changed.
    pub fn union(&self, other: BloomFilter) -> (r: Result<Self, BloomError>)
        requires
            self.wf(),
            other.wf(),
        ensures
            match r {
                Ok(f) => self@.capacity == other@.capacity && self@.hashes == other@.hashes
                    && f.wf() && f@ == spec_union(self@, other@),
                Err(e) => e == BloomError::ShapeMismatch && !(self@.capacity == other@.capacity
                    && self@.hashes == other@.hashes),
            },
    {
        if self.size != other.size || self.number_hashes != other.number_hashes {
            return Err(BloomError::ShapeMismatch);
        }
        let mut bits: Vec<bool> = Vec::new();
        let mut j: usize = 0;
        while j < self.size
            invariant
                j <= self.size,
                self.size == self@.bits.len(),
                other@.bits.len() == self@.bits.len(),
                bits@.len() == j,
                forall|q: int| 0 <= q < j ==> bits@[q] == (self@.bits[q] || other@.bits[q]),
            decreases self.size - j,
        {
            bits.push(self.bit_array[j] || other.bit_array[j]);
            j = j + 1;
        }
        let f = BloomFilter {
            size: self.size,
            number_hashes: self.number_hashes,
            salt: String::new(),
            bit_array: bits,
        };
        proof {
            assert(f@.bits =~= or_bits(self@.bits, other@.bits));
            assert(f@ =~= spec_union(self@, other@));
        }
        Ok(f)
    }

    /// A new filter of the same shape whose bits are the pointwise AND of the
    /// two operands' bits, under an empty salt. Refused when the shapes
    /// differ; neither operand is changed.
    pub fn intersection(&self, other: BloomFilter) -> (r: Result<Self, BloomError>)
        requires
            self.wf(),
            other.wf(),
        ensures
            match r {
                Ok(f) => self@.capacity == other@.capacity && self@.hashes == other@.hashes
                    && f.wf() && f@ == spec_intersection(self@, other@),
                Err(e) => e == BloomError::ShapeMismatch && !(self@.capacity == other@.capacity
                    && self@.hashes == other@.hashes),
            },
    {
        if self.size != other.size || self.number_hashes != other.number_hashes {
            return Err(BloomError::ShapeMismatch);
        }
        let mut bits: Vec<bool> = Vec::new();
        let mut j: usize = 0;
        while j < self.size
            invariant
                j <= self.size,
                self.size == self@.bits.len(),
                other@.bits.len() == self@.bits.len(),
                bits@.len() == j,
                forall|q: int| 0 <= q < j ==> bits@[q] == (self@.bits[q] && other@.bits[q]),
            decreases self.size - j,
        {
            bits.push(self.bit_array[j] && other.bit_array[j]);
            j = j + 1;
        }
        let f = BloomFilter {
            size: self.size,
            number_hashes: self.number_hashes,
            salt: String::new(),
            bit_array: bits,
        };
        proof {
            assert(f@.bits =~= and_bits(self@.bits, other@.bits));
            assert(f@ =~= spec_intersection(self@, other@));
        }
        Ok(f)
    }

    /// The number of bit positions.
    pub fn capacity(&self) -> (c: usize)
        ensures
            c as nat == self@.capacity,
    {
        self.size
    }

    /// The number of index positions derived per element.
    pub fn hash_count(&self) -> (k: i32)
        ensures
            k as int == self@.hashes,
    {
        self.number_hashes
    }

    /// The salt mixed into every digest input.
    pub fn salt(&self) -> (s: &str)
        ensures
            s@ == self@.salt,
    {
        self.salt.as_str()
    }

    /// The bit sequence, one flag per position.
    pub fn bits(&self) -> (b: &Vec<bool>)
        ensures
            b@ == self@.bits,
    {
        &self.bit_array
    }
}

impl Clone for BloomFilter {
    /// An exact copy: the same shape, salt, and bits.
    fn clone(&self) -> (r: Self)
        ensures
            r@ == self@,
    {
        let mut bits: Vec<bool> = Vec::new();
        let mut j: usize = 0;
        while j < self.bit_array.len()
            invariant
                j <= self.bit_array.len(),
                bits@ == self@.bits.take(j as int),
            decreases self.bit_array.len() - j,
        {
            bits.push(self.bit_array[j]);
            j = j + 1;
            proof {
                assert(bits@ =~= self@.bits.take(j as int));
            }
        }
        let r = BloomFilter {
            size: self.size,
            number_hashes: self.number_hashes,
            salt: self.salt.clone(),
            bit_array: bits,
        };
        proof {
            assert(self@.bits.take(self@.bits.len() as int) =~= self@.bits);
            assert(r@ =~= self@);
        }
        r
    }
}

} // verus!
