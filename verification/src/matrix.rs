use vstd::prelude::*;

verus! {

/// A square table of interaction coefficients between particle types,
/// stored row by row: the entry for `(type_a, type_b)` sits at
/// `type_a * num_types + type_b`. Reads outside the table give the neutral
/// coefficient the table was created with.
pub struct InteractionMatrix<T> {
    values: Vec<T>,
    num_types: usize,
    neutral: T,
}

impl<T: Copy> InteractionMatrix<T> {
    /// The table holds exactly one coefficient per ordered pair of types.
    pub closed spec fn well_formed(self) -> bool {
        self.values.len() == self.num_types * self.num_types
    }

    /// Number of particle types the table covers.
    pub closed spec fn size(self) -> nat {
        self.num_types as nat
    }

    /// The coefficient used outside the table and in every fresh cell.
    pub closed spec fn neutral_value(self) -> T {
        self.neutral
    }

    /// Whether `(a, b)` names a cell of the table.
    pub open spec fn in_table(self, a: int, b: int) -> bool {
        0 <= a < self.size() && 0 <= b < self.size()
    }

    /// The coefficient that a read of `(a, b)` gives.
    pub closed spec fn entry(self, a: int, b: int) -> T {
        if 0 <= a < self.num_types && 0 <= b < self.num_types {
            self.values@[a * self.num_types + b]
        } else {
            self.neutral
        }
    }

    proof fn lemma_index_in_bounds(a: int, b: int, n: int)
        requires
            0 <= a < n,
            0 <= b < n,
        ensures
            0 <= a * n + b < n * n,
    {
        assert(a * n + b < n * n) by (nonlinear_arith)
            requires
                0 <= a < n,
                0 <= b < n,
        ;
        assert(0 <= a * n) by (nonlinear_arith)
            requires
                0 <= a,
                0 <= n,
        ;
    }

    /// Creates a table for `num_types` types with every cell set to `neutral`.
    pub fn new(num_types: usize, neutral: T) -> (m: Self)
        requires
            num_types * num_types <= usize::MAX,
        ensures
            m.well_formed(),
            m.size() == num_types,
            m.neutral_value() == neutral,
            forall|a: int, b: int| #[trigger] m.entry(a, b) == neutral,
    {
        let total: usize = num_types * num_types;
        let mut values: Vec<T> = Vec::new();
        while values.len() < total
            invariant
                values.len() <= total,
                forall|i: int| 0 <= i < values.len() ==> values@[i] == neutral,
            decreases total - values.len(),
        {
            values.push(neutral);
        }
        let m = InteractionMatrix { values, num_types, neutral };
        assert forall|a: int, b: int| #[trigger] m.entry(a, b) == neutral by {
            if 0 <= a < num_types && 0 <= b < num_types {
                Self::lemma_index_in_bounds(a, b, num_types as int);
            }
        }
        m
    }

    /// Number of particle types the table covers.
    pub fn num_types(&self) -> (n: usize)
        ensures
            n == self.size(),
    {
        self.num_types
    }

    /// Reads the coefficient of `type_a` acting with `type_b`; the neutral
    /// coefficient when either index is outside the table.
    pub fn get(&self, type_a: usize, type_b: usize) -> (v: T)
        requires
            self.well_formed(),
        ensures
            v == self.entry(type_a as int, type_b as int),
            !self.in_table(type_a as int, type_b as int) ==> v == self.neutral_value(),
    {
        if type_a >= self.num_types || type_b >= self.num_types {
            return self.neutral;
        }
        proof {
            Self::lemma_index_in_bounds(type_a as int, type_b as int, self.num_types as int);
        }
        self.values[type_a * self.num_types + type_b]
    }

    /// Writes the coefficient of `type_a` acting with `type_b`; does nothing
    /// when either index is outside the table.
    pub fn set(&mut self, type_a: usize, type_b: usize, value: T)
        requires
            old(self).well_formed(),
        ensures
            final(self).well_formed(),
            final(self).size() == old(self).size(),
            final(self).neutral_value() == old(self).neutral_value(),
            forall|a: int, b: int|
                #[trigger] final(self).entry(a, b) == if a == type_a && b == type_b
                    && old(self).in_table(a, b) {
                    value
                } else {
                    old(self).entry(a, b)
                },
    {
        if type_a < self.num_types && type_b < self.num_types {
            let n = self.num_types;
            proof {
                Self::lemma_index_in_bounds(type_a as int, type_b as int, n as int);
            }
            let idx = type_a * n + type_b;
            let ghost before = self.values@;
            self.values.set(idx, value);
            proof {
                assert forall|a: int, b: int|
                    #[trigger] self.entry(a, b) == if a == type_a && b == type_b
                        && old(self).in_table(a, b) {
                        value
                    } else {
                        old(self).entry(a, b)
                    } by {
                    if 0 <= a < n && 0 <= b < n {
                        Self::lemma_index_in_bounds(a, b, n as int);
                        if a * n + b == idx {
                            Self::lemma_row_major_unique(a, b, type_a as int, type_b as int, n as int);
                        }
                    }
                }
            }
        }
    }

    proof fn lemma_row_major_unique(a: int, b: int, c: int, d: int, n: int)
        requires
            0 <= a < n,
            0 <= b < n,
            0 <= c < n,
            0 <= d < n,
            a * n + b == c * n + d,
        ensures
            a == c && b == d,
    {
        if a < c {
            assert(a * n + b < c * n + d) by (nonlinear_arith)
                requires
                    0 <= a < c,
                    0 <= b < n,
                    0 <= d,
            ;
        } else if a > c {
            assert(c * n + d < a * n + b) by (nonlinear_arith)
                requires
                    0 <= c < a,
                    0 <= d < n,
                    0 <= b,
            ;
        }
    }
}

/// A write is seen by the next read of the same cell, and leaves every other
/// cell as it was.
pub proof fn lemma_read_after_write<T: Copy>(
    before: InteractionMatrix<T>,
    after: InteractionMatrix<T>,
    type_a: usize,
    type_b: usize,
    value: T,
    a: int,
    b: int,
)
    requires
        after.size() == before.size(),
        forall|x: int, y: int|
            #[trigger] after.entry(x, y) == if x == type_a && y == type_b && before.in_table(x, y) {
                value
            } else {
                before.entry(x, y)
            },
    ensures
        before.in_table(type_a as int, type_b as int) ==> after.entry(type_a as int, type_b as int)
            == value,
        !(a == type_a && b == type_b) ==> after.entry(a, b) == before.entry(a, b),
        !before.in_table(type_a as int, type_b as int) ==> after.entry(a, b) == before.entry(a, b),
{
    assert(after.entry(type_a as int, type_b as int) == if before.in_table(type_a as int, type_b as int) { value } else { before.entry(type_a as int, type_b as int) });
    assert(after.entry(a, b) == if a == type_a && b == type_b && before.in_table(a, b) { value } else { before.entry(a, b) });
}

} // verus!
