//! The physical side of a duration column: a nullable signed 64-bit buffer
//! and the generic integer kernels (elementwise arithmetic with unit-length
//! broadcast, gather, filter, slice, shift, reductions) that the typed layers
//! dispatch to. Arithmetic wraps on overflow; division and remainder by zero
//! yield null, as the engine's integer kernels define them.
use vstd::prelude::*;
use vstd::arithmetic::div_mod::{
    lemma_div_basics_4, lemma_div_basics_5,
    lemma_div_is_ordered_by_denominator, lemma_mod_bound,
};
use crate::errors::{BinOp, ColumnError};

verus! {

/// A nullable column of 64-bit integer counts: the physical representation
/// beneath every duration (and datetime) column.
#[derive(Clone, Debug, PartialEq, Eq)]
pub struct Int64Column {
    pub values: Vec<Option<i64>>,
}

impl View for Int64Column {
    type V = Seq<Option<i64>>;

    open spec fn view(&self) -> Seq<Option<i64>> {
        self.values@
    }
}

/// Truncated (round-toward-zero) integer division, the semantics of the
/// engine's `/` kernel on signed counts.
pub open spec fn div_trunc(x: int, d: int) -> int
    recommends
        d != 0,
{
    if x >= 0 && d > 0 {
        x / d
    } else if x < 0 && d < 0 {
        (-x) / (-d)
    } else if x < 0 {
        -((-x) / d)
    } else {
        -(x / (-d))
    }
}

/// Truncated remainder: same sign as the dividend.
pub open spec fn rem_trunc(x: int, d: int) -> int
    recommends
        d != 0,
{
    if x >= 0 && d > 0 {
        x % d
    } else if x < 0 && d < 0 {
        -((-x) % (-d))
    } else if x < 0 {
        -((-x) % d)
    } else {
        x % (-d)
    }
}

/// Truncated division wrapped into the 64-bit range: the one overflowing case,
/// `i64::MIN / -1`, wraps back to `i64::MIN`.
pub open spec fn div_wrap(x: i64, d: i64) -> i64
    recommends
        d != 0,
{
    if x == i64::MIN && d == -1 {
        i64::MIN
    } else {
        div_trunc(x as int, d as int) as i64
    }
}

/// Truncated remainder wrapped into the 64-bit range: `i64::MIN % -1` is 0.
pub open spec fn rem_wrap(x: i64, d: i64) -> i64
    recommends
        d != 0,
{
    if x == i64::MIN && d == -1 {
        0
    } else {
        rem_trunc(x as int, d as int) as i64
    }
}

pub proof fn lemma_div_trunc_fits(x: i64, d: i64)
    requires
        d != 0,
        !(x == i64::MIN && d == -1),
    ensures
        i64::MIN <= div_trunc(x as int, d as int) <= i64::MAX,
{
    let xi = x as int;
    let di = d as int;
    if xi >= 0 && di > 0 {
        lemma_div_basics_4(xi, di);
        lemma_div_basics_5(xi, di);
    } else if xi < 0 && di < 0 {
        let a = -xi;
        let b = -di;
        lemma_div_basics_4(a, b);
        if x == i64::MIN {
            // d <= -2, so the quotient is at most 2^63 / 2.
            lemma_div_is_ordered_by_denominator(a, 2, b);
            vstd::arithmetic::div_mod::lemma_div_multiples_vanish(0x4000_0000_0000_0000, 2);
            assert(a / 2 == 0x4000_0000_0000_0000);
        } else {
            lemma_div_basics_5(a, b);
        }
    } else if xi < 0 {
        let a = -xi;
        lemma_div_basics_4(a, di);
        lemma_div_basics_5(a, di);
    } else {
        let b = -di;
        lemma_div_basics_4(xi, b);
        lemma_div_basics_5(xi, b);
    }
}

pub proof fn lemma_rem_trunc_fits(x: i64, d: i64)
    requires
        d != 0,
    ensures
        -(i64::MAX as int) <= rem_trunc(x as int, d as int) <= i64::MAX,
{
    let xi = x as int;
    let di = d as int;
    if xi >= 0 && di > 0 {
        lemma_mod_bound(xi, di);
    } else if xi < 0 && di < 0 {
        lemma_mod_bound(-xi, -di);
    } else if xi < 0 {
        lemma_mod_bound(-xi, di);
    } else {
        lemma_mod_bound(xi, -di);
    }
}

/// Wrapping truncated division: the engine's `/` on counts.
pub fn div_by_nonzero(x: i64, d: i64) -> (r: i64)
    requires
        d != 0,
    ensures
        r == div_wrap(x, d),
{
    if x == i64::MIN && d == -1 {
        i64::MIN
    } else {
        proof {
            lemma_div_trunc_fits(x, d);
        }
        x.checked_div(d).unwrap()
    }
}

/// Wrapping truncated remainder: the engine's `%` on counts.
fn rem_exec(x: i64, d: i64) -> (r: i64)
    requires
        d != 0,
    ensures
        r == rem_wrap(x, d),
{
    if x == i64::MIN && d == -1 {
        0
    } else {
        proof {
            lemma_rem_trunc_fits(x, d);
        }
        x.checked_rem(d).unwrap()
    }
}

/// One element of a null-propagating kernel: null in, null out; division and
/// remainder by zero are null; everything else wraps on overflow.
pub open spec fn binop_val(op: BinOp, a: Option<i64>, b: Option<i64>) -> Option<i64> {
    match (a, b) {
        (Some(x), Some(y)) => match op {
            BinOp::Add => Some(x.wrapping_add(y)),
            BinOp::Sub => Some(x.wrapping_sub(y)),
            BinOp::Mul => Some(x.wrapping_mul(y)),
            BinOp::Div => if y == 0 {
                None
            } else {
                Some(div_wrap(x, y))
            },
            BinOp::Rem => if y == 0 {
                None
            } else {
                Some(rem_wrap(x, y))
            },
        },
        _ => None,
    }
}

fn apply_one(op: BinOp, a: Option<i64>, b: Option<i64>) -> (r: Option<i64>)
    ensures
        r == binop_val(op, a, b),
{
    match (a, b) {
        (Some(x), Some(y)) => match op {
            BinOp::Add => Some(x.wrapping_add(y)),
            BinOp::Sub => Some(x.wrapping_sub(y)),
            BinOp::Mul => Some(x.wrapping_mul(y)),
            BinOp::Div => if y == 0 {
                None
            } else {
                Some(div_by_nonzero(x, y))
            },
            BinOp::Rem => if y == 0 {
                None
            } else {
                Some(rem_exec(x, y))
            },
        },
        _ => None,
    }
}

/// Two operand lengths are compatible when they are equal or either is one.
pub open spec fn broadcast_compat(a: Seq<Option<i64>>, b: Seq<Option<i64>>) -> bool {
    a.len() == b.len() || a.len() == 1 || b.len() == 1
}

/// Result length of a broadcasting kernel: a one-element operand stretches to
/// the other operand's length.
pub open spec fn broadcast_len(a: Seq<Option<i64>>, b: Seq<Option<i64>>) -> int {
    if a.len() == b.len() {
        a.len() as int
    } else if b.len() == 1 {
        a.len() as int
    } else {
        b.len() as int
    }
}

/// Element `i` of an operand, with a one-element operand broadcast.
pub open spec fn broadcast_at(s: Seq<Option<i64>>, i: int) -> Option<i64> {
    if s.len() == 1 {
        s[0]
    } else {
        s[i]
    }
}

/// The kernel's whole contract for one elementwise operation.
pub open spec fn kernel_ok(
    lhs: Seq<Option<i64>>,
    op: BinOp,
    rhs: Seq<Option<i64>>,
    out: Seq<Option<i64>>,
) -> bool {
    &&& out.len() == broadcast_len(lhs, rhs)
    &&& forall|i: int|
        0 <= i < out.len() ==> out[i] == binop_val(op, broadcast_at(lhs, i), broadcast_at(rhs, i))
}

/// Gather: the values at `idxs`, in order.
pub open spec fn gather(values: Seq<Option<i64>>, idxs: Seq<usize>) -> Seq<Option<i64>> {
    idxs.map_values(|j: usize| values[j as int])
}

pub open spec fn idxs_in_bounds(idxs: Seq<usize>, len: int) -> bool {
    forall|k: int| 0 <= k < idxs.len() ==> (idxs[k] as int) < len
}

/// Keep the values whose mask bit is set, in order.
pub open spec fn filter_val(s: Seq<Option<i64>>, mask: Seq<bool>) -> Seq<Option<i64>>
    recommends
        s.len() == mask.len(),
    decreases s.len(),
{
    if s.len() == 0 {
        Seq::empty()
    } else {
        let prefix = filter_val(s.drop_last(), mask.drop_last());
        if mask[s.len() - 1] {
            prefix.push(s.last())
        } else {
            prefix
        }
    }
}

/// Wrapping sum that skips nulls; an empty or all-null column sums to 0.
pub open spec fn sum_val(s: Seq<Option<i64>>) -> i64
    decreases s.len(),
{
    if s.len() == 0 {
        0
    } else {
        match s.last() {
            Some(x) => sum_val(s.drop_last()).wrapping_add(x),
            None => sum_val(s.drop_last()),
        }
    }
}

/// Minimum over the non-null values; `None` when there are none.
pub open spec fn min_val(s: Seq<Option<i64>>) -> Option<i64>
    decreases s.len(),
{
    if s.len() == 0 {
        None
    } else {
        match (min_val(s.drop_last()), s.last()) {
            (Some(m), Some(x)) => Some(if x < m { x } else { m }),
            (None, Some(x)) => Some(x),
            (Some(m), None) => Some(m),
            (None, None) => None,
        }
    }
}

/// Maximum over the non-null values; `None` when there are none.
pub open spec fn max_val(s: Seq<Option<i64>>) -> Option<i64>
    decreases s.len(),
{
    if s.len() == 0 {
        None
    } else {
        match (max_val(s.drop_last()), s.last()) {
            (Some(m), Some(x)) => Some(if x > m { x } else { m }),
            (None, Some(x)) => Some(x),
            (Some(m), None) => Some(m),
            (None, None) => None,
        }
    }
}

pub open spec fn null_count_val(s: Seq<Option<i64>>) -> int
    decreases s.len(),
{
    if s.len() == 0 {
        0
    } else {
        null_count_val(s.drop_last()) + if s.last() is None {
            1int
        } else {
            0int
        }
    }
}

/// Widening of a nullable 32-bit column to the physical 64-bit form.
pub open spec fn widen_opt(v: Option<i32>) -> Option<i64> {
    match v {
        Some(x) => Some(x as i64),
        None => None,
    }
}

pub open spec fn widened(s: Seq<Option<i32>>) -> Seq<Option<i64>> {
    s.map_values(|v: Option<i32>| widen_opt(v))
}

/// The engine's non-strict cast from 64 to 32 bits: out-of-range becomes null.
pub open spec fn narrow_opt(v: Option<i64>) -> Option<i32> {
    match v {
        Some(x) => if i32::MIN <= x <= i32::MAX {
            Some(x as i32)
        } else {
            None
        },
        None => None,
    }
}

pub open spec fn narrowed(s: Seq<Option<i64>>) -> Seq<Option<i32>> {
    s.map_values(|v: Option<i64>| narrow_opt(v))
}

/// Start of a slice: a negative offset counts from the end; both directions
/// clamp to the column.
pub open spec fn spec_slice_start(offset: int, len: int) -> int {
    if offset >= 0 {
        if offset <= len {
            offset
        } else {
            len
        }
    } else {
        if len + offset >= 0 {
            len + offset
        } else {
            0
        }
    }
}

/// End of a slice: the requested length, clamped to the column.
pub open spec fn spec_slice_end(offset: int, length: int, len: int) -> int {
    let s = spec_slice_start(offset, len);
    if s + length <= len {
        s + length
    } else {
        len
    }
}

/// Element `i` after shifting by `periods` (positive: toward the end), with
/// nulls filling the vacated positions.
pub open spec fn shift_val(s: Seq<Option<i64>>, periods: int, i: int) -> Option<i64>
    recommends
        0 <= i < s.len(),
{
    if periods >= 0 {
        if i < periods {
            None
        } else {
            s[i - periods]
        }
    } else {
        if i - periods < s.len() {
            s[i - periods]
        } else {
            None
        }
    }
}

/// The engine's sort order on nullable counts: nulls come first (or last,
/// with `nulls_last`), values ascend (or descend, with `descending`).
pub open spec fn sort_before(
    a: Option<i64>,
    b: Option<i64>,
    descending: bool,
    nulls_last: bool,
) -> bool {
    match (a, b) {
        (None, None) => true,
        (None, Some(_)) => !nulls_last,
        (Some(_), None) => nulls_last,
        (Some(x), Some(y)) => if descending {
            x >= y
        } else {
            x <= y
        },
    }
}

pub proof fn lemma_sort_before_total(
    a: Option<i64>,
    b: Option<i64>,
    descending: bool,
    nulls_last: bool,
)
    ensures
        sort_before(a, b, descending, nulls_last) || sort_before(b, a, descending, nulls_last),
{
}

pub proof fn lemma_sort_before_trans(
    a: Option<i64>,
    b: Option<i64>,
    c: Option<i64>,
    descending: bool,
    nulls_last: bool,
)
    requires
        sort_before(a, b, descending, nulls_last),
        sort_before(b, c, descending, nulls_last),
    ensures
        sort_before(a, c, descending, nulls_last),
{
}

fn le_exec(a: Option<i64>, b: Option<i64>, descending: bool, nulls_last: bool) -> (r: bool)
    ensures
        r == sort_before(a, b, descending, nulls_last),
{
    match (a, b) {
        (None, None) => true,
        (None, Some(_)) => !nulls_last,
        (Some(_), None) => nulls_last,
        (Some(x), Some(y)) => if descending {
            x >= y
        } else {
            x <= y
        },
    }
}

/// The length of the prefix two columns share.
pub open spec fn common_len(a: Seq<Option<i64>>, b: Seq<Option<i64>>) -> nat {
    if a.len() <= b.len() {
        a.len()
    } else {
        b.len()
    }
}

/// The positions below `n` where the two columns' validities disagree, in
/// ascending order.
pub open spec fn mismatch_idxs(a: Seq<Option<i64>>, b: Seq<Option<i64>>, n: nat) -> Seq<usize>
    recommends
        n <= a.len(),
        n <= b.len(),
    decreases n,
{
    if n == 0 {
        Seq::empty()
    } else {
        let prefix = mismatch_idxs(a, b, (n - 1) as nat);
        if (a[n - 1] is Some) != (b[n - 1] is Some) {
            prefix.push((n - 1) as usize)
        } else {
            prefix
        }
    }
}

/// The positions below `n` holding the first occurrence of their value, in
/// ascending order.
pub open spec fn first_occurrence_idxs(s: Seq<Option<i64>>, n: nat) -> Seq<usize>
    recommends
        n <= s.len(),
    decreases n,
{
    if n == 0 {
        Seq::empty()
    } else {
        let prefix = first_occurrence_idxs(s, (n - 1) as nat);
        if !s.take(n - 1).contains(s[n - 1]) {
            prefix.push((n - 1) as usize)
        } else {
            prefix
        }
    }
}

impl Int64Column {
    pub fn from_values(values: Vec<Option<i64>>) -> (r: Int64Column)
        ensures
            r@ == values@,
    {
        Int64Column { values }
    }

    /// A one-element column, the broadcast form of a scalar operand.
    pub fn splat(v: Option<i64>) -> (r: Int64Column)
        ensures
            r@ == seq![v],
    {
        let mut values: Vec<Option<i64>> = Vec::new();
        values.push(v);
        proof {
            assert(values@ =~= seq![v]);
        }
        Int64Column { values }
    }

    pub fn len(&self) -> (r: usize)
        ensures
            r == self@.len(),
    {
        self.values.len()
    }

    pub fn get(&self, i: usize) -> (r: Option<i64>)
        requires
            i < self@.len(),
        ensures
            r == self@[i as int],
    {
        self.values[i]
    }

    /// An element-for-element copy with a known relation to the original.
    pub fn clone_col(&self) -> (r: Int64Column)
        ensures
            r@ == self@,
    {
        let n = self.values.len();
        let mut values: Vec<Option<i64>> = Vec::new();
        let mut i: usize = 0;
        while i < n
            invariant
                i <= n,
                n == self@.len(),
                values@ == self@.take(i as int),
            decreases n - i,
        {
            values.push(self.values[i]);
            proof {
                assert(self@.take(i as int).push(self@[i as int]) =~= self@.take(i as int + 1));
            }
            i += 1;
        }
        proof {
            assert(self@.take(n as int) =~= self@);
        }
        Int64Column { values }
    }

    /// The null-propagating elementwise kernel with unit-length broadcast.
    pub fn apply_binary(&self, op: BinOp, rhs: &Int64Column) -> (r: Result<
        Int64Column,
        ColumnError,
    >)
        ensures
            broadcast_compat(self@, rhs@) ==> (r matches Ok(c) && kernel_ok(self@, op, rhs@, c@)),
            !broadcast_compat(self@, rhs@) ==> r == Err::<Int64Column, ColumnError>(
                ColumnError::ShapeMismatch,
            ),
    {
        let n_l = self.values.len();
        let n_r = rhs.values.len();
        if !(n_l == n_r || n_l == 1 || n_r == 1) {
            return Err(ColumnError::ShapeMismatch);
        }
        let n: usize = if n_l == n_r {
            n_l
        } else if n_r == 1 {
            n_l
        } else {
            n_r
        };
        let mut out: Vec<Option<i64>> = Vec::new();
        let mut i: usize = 0;
        while i < n
            invariant
                i <= n,
                n_l == self@.len(),
                n_r == rhs@.len(),
                broadcast_compat(self@, rhs@),
                n == broadcast_len(self@, rhs@),
                out@.len() == i,
                forall|j: int|
                    0 <= j < i ==> out@[j] == binop_val(
                        op,
                        broadcast_at(self@, j),
                        broadcast_at(rhs@, j),
                    ),
            decreases n - i,
        {
            let a = if n_l == 1 {
                self.values[0]
            } else {
                self.values[i]
            };
            let b = if n_r == 1 {
                rhs.values[0]
            } else {
                rhs.values[i]
            };
            out.push(apply_one(op, a, b));
            i += 1;
        }
        Ok(Int64Column { values: out })
    }

    pub fn null_count(&self) -> (r: usize)
        ensures
            r == null_count_val(self@),
    {
        let n = self.values.len();
        let mut count: usize = 0;
        let mut i: usize = 0;
        while i < n
            invariant
                i <= n,
                n == self@.len(),
                count == null_count_val(self@.take(i as int)),
                count <= i,
            decreases n - i,
        {
            if self.values[i].is_none() {
                count += 1;
            }
            proof {
                assert(self@.take(i as int + 1).drop_last() =~= self@.take(i as int));
                assert(self@.take(i as int + 1).last() == self@[i as int]);
            }
            i += 1;
        }
        proof {
            assert(self@.take(n as int) =~= self@);
        }
        count
    }

    pub fn has_nulls(&self) -> (r: bool)
        ensures
            r == exists|i: int| 0 <= i < self@.len() && self@[i] is None,
    {
        let n = self.values.len();
        let mut i: usize = 0;
        while i < n
            invariant
                i <= n,
                n == self@.len(),
                forall|j: int| 0 <= j < i ==> self@[j] is Some,
            decreases n - i,
        {
            if self.values[i].is_none() {
                return true;
            }
            i += 1;
        }
        false
    }

    /// True at each null position.
    pub fn null_mask(&self) -> (r: Vec<bool>)
        ensures
            r@.len() == self@.len(),
            forall|i: int| 0 <= i < r@.len() ==> r@[i] == (self@[i] is None),
    {
        let n = self.values.len();
        let mut out: Vec<bool> = Vec::new();
        let mut i: usize = 0;
        while i < n
            invariant
                i <= n,
                n == self@.len(),
                out@.len() == i,
                forall|j: int| 0 <= j < i ==> out@[j] == (self@[j] is None),
            decreases n - i,
        {
            out.push(self.values[i].is_none());
            i += 1;
        }
        out
    }

    /// True at each non-null position.
    pub fn valid_mask(&self) -> (r: Vec<bool>)
        ensures
            r@.len() == self@.len(),
            forall|i: int| 0 <= i < r@.len() ==> r@[i] == (self@[i] is Some),
    {
        let n = self.values.len();
        let mut out: Vec<bool> = Vec::new();
        let mut i: usize = 0;
        while i < n
            invariant
                i <= n,
                n == self@.len(),
                out@.len() == i,
                forall|j: int| 0 <= j < i ==> out@[j] == (self@[j] is Some),
            decreases n - i,
        {
            out.push(self.values[i].is_some());
            i += 1;
        }
        out
    }

    /// Wrapping sum over the non-null values; empty and all-null sum to 0.
    pub fn sum(&self) -> (r: i64)
        ensures
            r == sum_val(self@),
    {
        let n = self.values.len();
        let mut acc: i64 = 0;
        let mut i: usize = 0;
        while i < n
            invariant
                i <= n,
                n == self@.len(),
                acc == sum_val(self@.take(i as int)),
            decreases n - i,
        {
            match self.values[i] {
                Some(x) => {
                    acc = acc.wrapping_add(x);
                },
                None => {},
            }
            proof {
                assert(self@.take(i as int + 1).drop_last() =~= self@.take(i as int));
                assert(self@.take(i as int + 1).last() == self@[i as int]);
            }
            i += 1;
        }
        proof {
            assert(self@.take(n as int) =~= self@);
        }
        acc
    }

    pub fn min(&self) -> (r: Option<i64>)
        ensures
            r == min_val(self@),
    {
        let n = self.values.len();
        let mut acc: Option<i64> = None;
        let mut i: usize = 0;
        while i < n
            invariant
                i <= n,
                n == self@.len(),
                acc == min_val(self@.take(i as int)),
            decreases n - i,
        {
            match (acc, self.values[i]) {
                (Some(m), Some(x)) => {
                    acc = Some(if x < m { x } else { m });
                },
                (None, Some(x)) => {
                    acc = Some(x);
                },
                _ => {},
            }
            proof {
                assert(self@.take(i as int + 1).drop_last() =~= self@.take(i as int));
                assert(self@.take(i as int + 1).last() == self@[i as int]);
            }
            i += 1;
        }
        proof {
            assert(self@.take(n as int) =~= self@);
        }
        acc
    }

    pub fn max(&self) -> (r: Option<i64>)
        ensures
            r == max_val(self@),
    {
        let n = self.values.len();
        let mut acc: Option<i64> = None;
        let mut i: usize = 0;
        while i < n
            invariant
                i <= n,
                n == self@.len(),
                acc == max_val(self@.take(i as int)),
            decreases n - i,
        {
            match (acc, self.values[i]) {
                (Some(m), Some(x)) => {
                    acc = Some(if x > m { x } else { m });
                },
                (None, Some(x)) => {
                    acc = Some(x);
                },
                _ => {},
            }
            proof {
                assert(self@.take(i as int + 1).drop_last() =~= self@.take(i as int));
                assert(self@.take(i as int + 1).last() == self@[i as int]);
            }
            i += 1;
        }
        proof {
            assert(self@.take(n as int) =~= self@);
        }
        acc
    }

    /// Keep the elements whose mask bit is set.
    pub fn filter(&self, mask: &Vec<bool>) -> (r: Result<Int64Column, ColumnError>)
        ensures
            mask@.len() == self@.len() ==> (r matches Ok(c) && c@ == filter_val(self@, mask@)),
            mask@.len() != self@.len() ==> r == Err::<Int64Column, ColumnError>(
                ColumnError::ShapeMismatch,
            ),
    {
        let n = self.values.len();
        if mask.len() != n {
            return Err(ColumnError::ShapeMismatch);
        }
        let mut out: Vec<Option<i64>> = Vec::new();
        let mut i: usize = 0;
        while i < n
            invariant
                i <= n,
                n == self@.len(),
                mask@.len() == n,
                out@ == filter_val(self@.take(i as int), mask@.take(i as int)),
            decreases n - i,
        {
            if mask[i] {
                out.push(self.values[i]);
            }
            proof {
                assert(self@.take(i as int + 1).drop_last() =~= self@.take(i as int));
                assert(mask@.take(i as int + 1).drop_last() =~= mask@.take(i as int));
                assert(self@.take(i as int + 1).last() == self@[i as int]);
            }
            i += 1;
        }
        proof {
            assert(self@.take(n as int) =~= self@);
            assert(mask@.take(n as int) =~= mask@);
        }
        Ok(Int64Column { values: out })
    }

    /// Gather the values at `indices`; fails on the first index out of bounds.
    pub fn take(&self, indices: &Vec<usize>) -> (r: Result<Int64Column, ColumnError>)
        ensures
            idxs_in_bounds(indices@, self@.len() as int) ==> (r matches Ok(c) && c@ == gather(
                self@,
                indices@,
            )),
            !idxs_in_bounds(indices@, self@.len() as int) ==> r == Err::<Int64Column, ColumnError>(
                ColumnError::IndexOutOfBounds,
            ),
    {
        let n = indices.len();
        let mut out: Vec<Option<i64>> = Vec::new();
        let mut i: usize = 0;
        while i < n
            invariant
                i <= n,
                n == indices@.len(),
                out@.len() == i,
                forall|k: int| 0 <= k < i ==> (indices@[k] as int) < self@.len(),
                forall|k: int| 0 <= k < i ==> out@[k] == self@[indices@[k] as int],
            decreases n - i,
        {
            let j = indices[i];
            if j >= self.values.len() {
                proof {
                    assert(!idxs_in_bounds(indices@, self@.len() as int));
                }
                return Err(ColumnError::IndexOutOfBounds);
            }
            out.push(self.values[j]);
            i += 1;
        }
        proof {
            assert(out@ =~= gather(self@, indices@));
        }
        Ok(Int64Column { values: out })
    }

    /// The clamped window `[offset, offset + length)`, a negative offset
    /// counting from the end.
    pub fn slice(&self, offset: i64, length: usize) -> (r: Int64Column)
        ensures
            r@ == self@.subrange(
                spec_slice_start(offset as int, self@.len() as int),
                spec_slice_end(offset as int, length as int, self@.len() as int),
            ),
    {
        let n = self.values.len();
        let start: usize = if offset >= 0 {
            if (offset as u64) <= (n as u64) {
                offset as usize
            } else {
                n
            }
        } else {
            let a: u64 = if offset == i64::MIN {
                0x8000_0000_0000_0000u64
            } else {
                (-offset) as u64
            };
            if a <= (n as u64) {
                n - (a as usize)
            } else {
                0
            }
        };
        let end: usize = if length <= n - start {
            start + length
        } else {
            n
        };
        let mut out: Vec<Option<i64>> = Vec::new();
        let mut i: usize = start;
        while i < end
            invariant
                start <= i <= end <= n,
                n == self@.len(),
                out@ == self@.subrange(start as int, i as int),
            decreases end - i,
        {
            out.push(self.values[i]);
            proof {
                assert(self@.subrange(start as int, i as int).push(self@[i as int])
                    =~= self@.subrange(start as int, i as int + 1));
            }
            i += 1;
        }
        proof {
            assert(start as int == spec_slice_start(offset as int, self@.len() as int));
            assert(end as int == spec_slice_end(offset as int, length as int, self@.len() as int));
        }
        Int64Column { values: out }
    }

    /// Split into the head `[0, offset)` and the tail `[offset, len)`, the
    /// offset clamped as in `slice`.
    pub fn split_at(&self, offset: i64) -> (r: (Int64Column, Int64Column))
        ensures
            r.0@ == self@.subrange(0, spec_slice_start(offset as int, self@.len() as int)),
            r.1@ == self@.subrange(
                spec_slice_start(offset as int, self@.len() as int),
                self@.len() as int,
            ),
    {
        let n = self.values.len();
        let head = self.slice(0, if offset >= 0 {
            if (offset as u64) <= (n as u64) {
                offset as usize
            } else {
                n
            }
        } else {
            let a: u64 = if offset == i64::MIN {
                0x8000_0000_0000_0000u64
            } else {
                (-offset) as u64
            };
            if a <= (n as u64) {
                n - (a as usize)
            } else {
                0
            }
        });
        let tail = self.slice(offset, n);
        proof {
            let cut = spec_slice_start(offset as int, self@.len() as int);
            assert(spec_slice_end(0, cut, self@.len() as int) == cut);
            assert(spec_slice_end(offset as int, n as int, self@.len() as int)
                == self@.len() as int);
        }
        (head, tail)
    }

    pub fn reverse(&self) -> (r: Int64Column)
        ensures
            r@.len() == self@.len(),
            forall|i: int| 0 <= i < r@.len() ==> r@[i] == self@[self@.len() - 1 - i],
    {
        let n = self.values.len();
        let mut out: Vec<Option<i64>> = Vec::new();
        let mut i: usize = 0;
        while i < n
            invariant
                i <= n,
                n == self@.len(),
                out@.len() == i,
                forall|j: int| 0 <= j < i ==> out@[j] == self@[n - 1 - j],
            decreases n - i,
        {
            out.push(self.values[n - 1 - i]);
            i += 1;
        }
        Int64Column { values: out }
    }

    /// Shift by `periods` (positive: toward the end), nulls filling the gap.
    pub fn shift(&self, periods: i64) -> (r: Int64Column)
        ensures
            r@.len() == self@.len(),
            forall|i: int| 0 <= i < r@.len() ==> r@[i] == shift_val(self@, periods as int, i),
    {
        let n = self.values.len();
        let mut out: Vec<Option<i64>> = Vec::new();
        let mut i: usize = 0;
        while i < n
            invariant
                i <= n,
                n == self@.len(),
                out@.len() == i,
                forall|j: int| 0 <= j < i ==> out@[j] == shift_val(self@, periods as int, j),
            decreases n - i,
        {
            let v: Option<i64> = if periods >= 0 {
                if (i as u64) < (periods as u64) {
                    None
                } else {
                    self.values[i - (periods as usize)]
                }
            } else {
                let a: u64 = if periods == i64::MIN {
                    0x8000_0000_0000_0000u64
                } else {
                    (-periods) as u64
                };
                if (i as u128) + (a as u128) < (n as u128) {
                    self.values[i + (a as usize)]
                } else {
                    None
                }
            };
            out.push(v);
            i += 1;
        }
        Int64Column { values: out }
    }

    /// `length` copies of the element at `index`.
    pub fn new_from_index(&self, index: usize, length: usize) -> (r: Int64Column)
        requires
            index < self@.len(),
        ensures
            r@.len() == length,
            forall|i: int| 0 <= i < r@.len() ==> r@[i] == self@[index as int],
    {
        let v = self.values[index];
        let mut out: Vec<Option<i64>> = Vec::new();
        let mut i: usize = 0;
        while i < length
            invariant
                i <= length,
                out@.len() == i,
                forall|j: int| 0 <= j < i ==> out@[j] == v,
                v == self@[index as int],
            decreases length - i,
        {
            out.push(v);
            i += 1;
        }
        Int64Column { values: out }
    }

    /// Where the mask is true take from `self`, where false from `other`, and
    /// where the mask itself is null the result is null.
    pub fn zip_with(&self, mask: &Vec<Option<bool>>, other: &Int64Column) -> (r: Result<
        Int64Column,
        ColumnError,
    >)
        ensures
            (mask@.len() == self@.len() && other@.len() == self@.len()) ==> (r matches Ok(c)
                && c@.len() == self@.len() && forall|i: int|
                0 <= i < c@.len() ==> c@[i] == (match mask@[i] {
                    Some(true) => self@[i],
                    Some(false) => other@[i],
                    None => None,
                })),
            !(mask@.len() == self@.len() && other@.len() == self@.len()) ==> r == Err::<
                Int64Column,
                ColumnError,
            >(ColumnError::ShapeMismatch),
    {
        let n = self.values.len();
        if mask.len() != n || other.values.len() != n {
            return Err(ColumnError::ShapeMismatch);
        }
        let mut out: Vec<Option<i64>> = Vec::new();
        let mut i: usize = 0;
        while i < n
            invariant
                i <= n,
                n == self@.len(),
                mask@.len() == n,
                other@.len() == n,
                out@.len() == i,
                forall|j: int|
                    0 <= j < i ==> out@[j] == (match mask@[j] {
                        Some(true) => self@[j],
                        Some(false) => other@[j],
                        None => None,
                    }),
            decreases n - i,
        {
            let v: Option<i64> = match mask[i] {
                Some(true) => self.values[i],
                Some(false) => other.values[i],
                None => None,
            };
            out.push(v);
            i += 1;
        }
        Ok(Int64Column { values: out })
    }

    /// The distinct values (null counted as a value), each exactly once; the
    /// engine gives no order guarantee, and none is claimed.
    pub fn unique(&self) -> (r: Int64Column)
        ensures
            forall|v: Option<i64>| r@.contains(v) <==> self@.contains(v),
            forall|i: int, j: int| 0 <= i < j < r@.len() ==> r@[i] != r@[j],
    {
        let n = self.values.len();
        let mut out: Vec<Option<i64>> = Vec::new();
        let mut i: usize = 0;
        while i < n
            invariant
                i <= n,
                n == self@.len(),
                forall|v: Option<i64>| out@.contains(v) <==> self@.take(i as int).contains(v),
                forall|p: int, q: int| 0 <= p < q < out@.len() ==> out@[p] != out@[q],
            decreases n - i,
        {
            let v = self.values[i];
            let ghost pre = self@.take(i as int);
            let ghost out_pre = out@;
            proof {
                assert(self@.take(i as int + 1) =~= pre.push(v));
            }
            if !contains_opt(&out, v) {
                out.push(v);
            }
            proof {
                broadcast use vstd::seq_lib::lemma_seq_contains_after_push;

                assert forall|w: Option<i64>|
                    out@.contains(w) <==> self@.take(i as int + 1).contains(w) by {
                    if out_pre.contains(v) {
                        assert(out@ == out_pre);
                    } else {
                        assert(out@ == out_pre.push(v));
                    }
                }
            }
            i += 1;
        }
        proof {
            assert(self@.take(n as int) =~= self@);
        }
        Int64Column { values: out }
    }

    /// Sort the values under [`sort_before`]: the result is a permutation of
    /// the column, totally ordered by the chosen direction and null placement.
    pub fn sort_with(&self, descending: bool, nulls_last: bool) -> (r: Int64Column)
        ensures
            r@.len() == self@.len(),
            r@.to_multiset() == self@.to_multiset(),
            forall|i: int, j: int|
                0 <= i < j < r@.len() ==> sort_before(r@[i], r@[j], descending, nulls_last),
    {
        let mut rest: Vec<Option<i64>> = self.clone_col().values;
        let mut out: Vec<Option<i64>> = Vec::new();
        proof {
            broadcast use vstd::seq_lib::group_to_multiset_ensures;

            assert(out@.to_multiset().add(rest@.to_multiset()) =~= self@.to_multiset());
        }
        while rest.len() != 0
            invariant
                out@.len() + rest@.len() == self@.len(),
                out@.to_multiset().add(rest@.to_multiset()) == self@.to_multiset(),
                forall|i: int, j: int|
                    0 <= i < j < out@.len() ==> sort_before(out@[i], out@[j], descending, nulls_last),
                forall|i: int, j: int|
                    0 <= i < out@.len() && 0 <= j < rest@.len() ==> sort_before(
                        out@[i],
                        rest@[j],
                        descending,
                        nulls_last,
                    ),
            decreases rest@.len(),
        {
            let mut m: usize = 0;
            let mut k: usize = 1;
            while k < rest.len()
                invariant
                    0 < rest@.len(),
                    m < k <= rest@.len(),
                    forall|p: int|
                        0 <= p < k ==> sort_before(
                            rest@[m as int],
                            rest@[p],
                            descending,
                            nulls_last,
                        ),
                decreases rest@.len() - k,
            {
                if !le_exec(rest[m], rest[k], descending, nulls_last) {
                    proof {
                        lemma_sort_before_total(
                            rest@[m as int],
                            rest@[k as int],
                            descending,
                            nulls_last,
                        );
                        assert forall|p: int| 0 <= p < k as int + 1 implies sort_before(
                            rest@[k as int],
                            rest@[p],
                            descending,
                            nulls_last,
                        ) by {
                            if p < k as int {
                                lemma_sort_before_trans(
                                    rest@[k as int],
                                    rest@[m as int],
                                    rest@[p],
                                    descending,
                                    nulls_last,
                                );
                            }
                        }
                    }
                    m = k;
                }
                k += 1;
            }
            let ghost rest_pre = rest@;
            let ghost out_pre = out@;
            let v = rest.remove(m);
            out.push(v);
            proof {
                broadcast use vstd::seq_lib::group_to_multiset_ensures;

                assert(rest_pre.contains(v));
                assert(rest_pre.to_multiset().count(v) > 0);
                assert(out@.to_multiset().add(rest@.to_multiset()) =~= out_pre.to_multiset().add(
                    rest_pre.to_multiset(),
                ));
            }
        }
        proof {
            broadcast use vstd::seq_lib::group_to_multiset_ensures;

            assert(out@.to_multiset().add(rest@.to_multiset()) =~= out@.to_multiset());
        }
        Int64Column { values: out }
    }

    /// Append to `idxs` each position, in ascending order, where exactly one
    /// of the two columns is null, over the shared prefix of the two columns.
    pub fn find_validity_mismatch(&self, other: &Int64Column, idxs: &mut Vec<usize>)
        ensures
            final(idxs)@ == old(idxs)@ + mismatch_idxs(self@, other@, common_len(self@, other@)),
    {
        let n = if self.values.len() <= other.values.len() {
            self.values.len()
        } else {
            other.values.len()
        };
        let mut i: usize = 0;
        while i < n
            invariant
                i <= n,
                n as nat == common_len(self@, other@),
                idxs@ == old(idxs)@ + mismatch_idxs(self@, other@, i as nat),
            decreases n - i,
        {
            let ghost prev = idxs@;
            if self.values[i].is_some() != other.values[i].is_some() {
                idxs.push(i);
            }
            proof {
                let step = mismatch_idxs(self@, other@, i as nat + 1);
                if (self@[i as int] is Some) != (other@[i as int] is Some) {
                    assert(prev.push(i) =~= old(idxs)@ + mismatch_idxs(
                        self@,
                        other@,
                        i as nat,
                    ).push(i));
                    assert(idxs@ == old(idxs)@ + step);
                } else {
                    assert(idxs@ == old(idxs)@ + step);
                }
            }
            i += 1;
        }
    }

    /// The positions of the first occurrence of each distinct value, in
    /// ascending order.
    pub fn arg_unique(&self) -> (r: Vec<usize>)
        ensures
            r@ == first_occurrence_idxs(self@, self@.len() as nat),
    {
        let n = self.values.len();
        let mut out: Vec<usize> = Vec::new();
        let mut i: usize = 0;
        while i < n
            invariant
                i <= n,
                n == self@.len(),
                out@ == first_occurrence_idxs(self@, i as nat),
            decreases n - i,
        {
            let ghost prev = out@;
            if !contains_prefix(&self.values, i, self.values[i]) {
                out.push(i);
            }
            proof {
                let step = first_occurrence_idxs(self@, i as nat + 1);
                if !self@.take(i as int).contains(self@[i as int]) {
                    assert(prev.push(i) =~= first_occurrence_idxs(self@, i as nat).push(i));
                    assert(out@ == step);
                } else {
                    assert(out@ == step);
                }
            }
            i += 1;
        }
        out
    }

    /// Concatenate `other`'s values after `self`'s.
    pub fn append_values(&mut self, other: &Int64Column)
        ensures
            final(self)@ == old(self)@ + other@,
    {
        let n = other.values.len();
        let mut i: usize = 0;
        while i < n
            invariant
                i <= n,
                n == other@.len(),
                self@ == old(self)@ + other@.take(i as int),
            decreases n - i,
        {
            self.values.push(other.values[i]);
            proof {
                assert((old(self)@ + other@.take(i as int)).push(other@[i as int]) =~= old(self)@
                    + other@.take(i as int + 1));
            }
            i += 1;
        }
        proof {
            assert(old(self)@ + other@.take(n as int) =~= old(self)@ + other@);
        }
    }
}

fn contains_prefix(values: &Vec<Option<i64>>, upto: usize, x: Option<i64>) -> (r: bool)
    requires
        upto <= values@.len(),
    ensures
        r == values@.take(upto as int).contains(x),
{
    let mut j: usize = 0;
    while j < upto
        invariant
            j <= upto,
            upto <= values@.len(),
            forall|k: int| 0 <= k < j ==> values@[k] != x,
        decreases upto - j,
    {
        let eq = match (values[j], x) {
            (Some(a), Some(b)) => a == b,
            (None, None) => true,
            _ => false,
        };
        if eq {
            proof {
                assert(values@.take(upto as int)[j as int] == x);
            }
            return true;
        }
        j += 1;
    }
    proof {
        assert forall|k: int| 0 <= k < upto as int implies values@.take(upto as int)[k] != x by {
            assert(values@.take(upto as int)[k] == values@[k]);
        }
    }
    false
}

fn contains_opt(values: &Vec<Option<i64>>, x: Option<i64>) -> (r: bool)
    ensures
        r == values@.contains(x),
{
    let n = values.len();
    let mut i: usize = 0;
    while i < n
        invariant
            i <= n,
            n == values@.len(),
            forall|j: int| 0 <= j < i ==> values@[j] != x,
        decreases n - i,
    {
        let eq = match (values[i], x) {
            (Some(a), Some(b)) => a == b,
            (None, None) => true,
            _ => false,
        };
        if eq {
            return true;
        }
        i += 1;
    }
    false
}

/// Widen a nullable 32-bit column to the physical 64-bit form.
pub fn widen_i32(values: &Vec<Option<i32>>) -> (r: Int64Column)
    ensures
        r@ == widened(values@),
{
    let n = values.len();
    let mut out: Vec<Option<i64>> = Vec::new();
    let mut i: usize = 0;
    while i < n
        invariant
            i <= n,
            n == values@.len(),
            out@.len() == i,
            forall|j: int| 0 <= j < i ==> out@[j] == widen_opt(values@[j]),
        decreases n - i,
    {
        let v: Option<i64> = match values[i] {
            Some(x) => Some(x as i64),
            None => None,
        };
        out.push(v);
        i += 1;
    }
    proof {
        assert(out@ =~= widened(values@));
    }
    Int64Column { values: out }
}

/// The engine's non-strict cast down to 32 bits: out-of-range becomes null.
pub fn narrow_i32(c: &Int64Column) -> (r: Vec<Option<i32>>)
    ensures
        r@ == narrowed(c@),
{
    let n = c.values.len();
    let mut out: Vec<Option<i32>> = Vec::new();
    let mut i: usize = 0;
    while i < n
        invariant
            i <= n,
            n == c@.len(),
            out@.len() == i,
            forall|j: int| 0 <= j < i ==> out@[j] == narrow_opt(c@[j]),
        decreases n - i,
    {
        let v: Option<i32> = match c.values[i] {
            Some(x) => if x >= i32::MIN as i64 && x <= i32::MAX as i64 {
                Some(x as i32)
            } else {
                None
            },
            None => None,
        };
        out.push(v);
        i += 1;
    }
    proof {
        assert(out@ =~= narrowed(c@));
    }
    out
}

} // verus!
