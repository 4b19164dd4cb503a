use vstd::prelude::*;

verus! {

/// True when `x` is representable as an `i64`.
pub open spec fn in_range(x: int) -> bool {
    i64::MIN <= x <= i64::MAX
}

/// The mathematical values of a vector of machine integers.
pub open spec fn num_seq(v: Seq<i64>) -> Seq<int> {
    Seq::new(v.len(), |i: int| v[i] as int)
}

/// The mathematical values of a matrix stored as a sequence of rows.
pub open spec fn num_mat(m: Seq<Vec<i64>>) -> Seq<Seq<int>> {
    Seq::new(m.len(), |i: int| num_seq(m[i]@))
}

/// `m` has exactly `rows` rows, each of `cols` entries.
pub open spec fn is_matrix(m: Seq<Seq<int>>, rows: nat, cols: nat) -> bool {
    m.len() == rows && forall|i: int| 0 <= i < rows ==> #[trigger] m[i].len() == cols
}

/// Sum of the products of the first `n` pairs of entries, summed left to right.
pub open spec fn dot_prefix(a: Seq<int>, b: Seq<int>, n: nat) -> int
    decreases n,
{
    if n == 0 {
        0
    } else {
        dot_prefix(a, b, (n - 1) as nat) + a[n - 1] * b[n - 1]
    }
}

/// Dot product of two vectors of equal length.
pub open spec fn dot_of(a: Seq<int>, b: Seq<int>) -> int {
    dot_prefix(a, b, a.len())
}

/// Every product and every partial sum of the dot product fits in an `i64`.
pub open spec fn dot_fits(a: Seq<int>, b: Seq<int>) -> bool {
    forall|k: int|
        0 <= k < a.len() ==> in_range(#[trigger] (a[k] * b[k])) && in_range(dot_prefix(a, b, (k + 1) as nat))
}

/// Transpose of a matrix whose rows have `cols` entries: `cols` rows, each as
/// long as `m` has rows.
pub open spec fn transpose_of(m: Seq<Seq<int>>, cols: nat) -> Seq<Seq<int>> {
    Seq::new(cols, |j: int| Seq::new(m.len(), |i: int| m[i][j]))
}

/// Product of `a` (rows of `b.len()` entries) and `b` (rows of `cols` entries).
pub open spec fn product_of(a: Seq<Seq<int>>, b: Seq<Seq<int>>, cols: nat) -> Seq<Seq<int>> {
    Seq::new(a.len(), |i: int| Seq::new(cols, |j: int| dot_of(a[i], transpose_of(b, cols)[j])))
}

/// Every dot product computed for `product_of(a, b, cols)` stays within `i64`.
pub open spec fn product_fits(a: Seq<Seq<int>>, b: Seq<Seq<int>>, cols: nat) -> bool {
    forall|i: int, j: int|
        0 <= i < a.len() && 0 <= j < cols ==> #[trigger] dot_fits(a[i], transpose_of(b, cols)[j])
}

/// Dot product of two vectors of equal length, summed left to right.
pub fn dot(a: &Vec<i64>, b: &Vec<i64>) -> (r: i64)
    requires
        a.len() == b.len(),
        dot_fits(num_seq(a@), num_seq(b@)),
    ensures
        r as int == dot_of(num_seq(a@), num_seq(b@)),
{
    let ghost sa = num_seq(a@);
    let ghost sb = num_seq(b@);
    let mut acc: i64 = 0;
    let mut k: usize = 0;
    while k < a.len()
        invariant
            k <= a.len() == b.len(),
            sa == num_seq(a@),
            sb == num_seq(b@),
            dot_fits(sa, sb),
            acc as int == dot_prefix(sa, sb, k as nat),
        decreases a.len() - k,
    {
        assert(in_range(sa[k as int] * sb[k as int]));
        assert(in_range(dot_prefix(sa, sb, (k + 1) as nat)));
        let p = a[k] * b[k];
        acc = acc + p;
        k = k + 1;
    }
    acc
}

/// Transpose of `m`, whose rows all have `cols` entries.
pub fn transpose(m: &Vec<Vec<i64>>, cols: usize) -> (r: Vec<Vec<i64>>)
    requires
        is_matrix(num_mat(m@), m.len() as nat, cols as nat),
    ensures
        num_mat(r@) == transpose_of(num_mat(m@), cols as nat),
        is_matrix(num_mat(r@), cols as nat, m.len() as nat),
{
    let ghost sm = num_mat(m@);
    let mut out: Vec<Vec<i64>> = Vec::new();
    let mut j: usize = 0;
    while j < cols
        invariant
            j <= cols,
            sm == num_mat(m@),
            is_matrix(sm, m.len() as nat, cols as nat),
            out.len() == j,
            forall|jj: int| 0 <= jj < j ==> #[trigger] num_seq(out@[jj]@) == transpose_of(sm, cols as nat)[jj],
        decreases cols - j,
    {
        let mut col: Vec<i64> = Vec::new();
        let mut i: usize = 0;
        while i < m.len()
            invariant
                i <= m.len(),
                j < cols,
                sm == num_mat(m@),
                is_matrix(sm, m.len() as nat, cols as nat),
                col.len() == i,
                forall|ii: int| 0 <= ii < i ==> #[trigger] col@[ii] as int == sm[ii][j as int],
            decreases m.len() - i,
        {
            assert(sm[i as int].len() == cols);
            col.push(m[i][j]);
            i = i + 1;
        }
        assert(num_seq(col@) =~= transpose_of(sm, cols as nat)[j as int]);
        out.push(col);
        j = j + 1;
    }
    assert(num_mat(out@) =~= transpose_of(sm, cols as nat));
    out
}

/// Matrix product of `a`, whose rows have `b.len()` entries, and `b`, whose
/// rows have `cols` entries. Each entry is the dot product of a row of `a`
/// with a row of the transpose of `b`.
pub fn matrix_mul(a: &Vec<Vec<i64>>, b: &Vec<Vec<i64>>, cols: usize) -> (r: Vec<Vec<i64>>)
    requires
        is_matrix(num_mat(a@), a.len() as nat, b.len() as nat),
        is_matrix(num_mat(b@), b.len() as nat, cols as nat),
        product_fits(num_mat(a@), num_mat(b@), cols as nat),
    ensures
        num_mat(r@) == product_of(num_mat(a@), num_mat(b@), cols as nat),
        is_matrix(num_mat(r@), a.len() as nat, cols as nat),
{
    let ghost sa = num_mat(a@);
    let ghost sb = num_mat(b@);
    let b_trans = transpose(b, cols);
    let ghost st = num_mat(b_trans@);
    let mut out: Vec<Vec<i64>> = Vec::new();
    let mut i: usize = 0;
    while i < a.len()
        invariant
            i <= a.len(),
            sa == num_mat(a@),
            sb == num_mat(b@),
            st == num_mat(b_trans@),
            st == transpose_of(sb, cols as nat),
            is_matrix(st, cols as nat, b.len() as nat),
            is_matrix(sa, a.len() as nat, b.len() as nat),
            product_fits(sa, sb, cols as nat),
            out.len() == i,
            forall|ii: int| 0 <= ii < i ==> #[trigger] num_seq(out@[ii]@) == product_of(sa, sb, cols as nat)[ii],
        decreases a.len() - i,
    {
        let mut row: Vec<i64> = Vec::new();
        let mut j: usize = 0;
        while j < cols
            invariant
                j <= cols,
                i < a.len(),
                sa == num_mat(a@),
                st == num_mat(b_trans@),
                st == transpose_of(sb, cols as nat),
                is_matrix(st, cols as nat, b.len() as nat),
                is_matrix(sa, a.len() as nat, b.len() as nat),
                product_fits(sa, sb, cols as nat),
                row.len() == j,
                forall|jj: int| 0 <= jj < j ==> #[trigger] row@[jj] as int == dot_of(sa[i as int], st[jj]),
            decreases cols - j,
        {
            assert(sa[i as int] == num_seq(a@[i as int]@));
            assert(st[j as int] == num_seq(b_trans@[j as int]@));
            assert(dot_fits(sa[i as int], st[j as int]));
            let d = dot(&a[i], &b_trans[j]);
            row.push(d);
            j = j + 1;
        }
        assert(num_seq(row@) =~= product_of(sa, sb, cols as nat)[i as int]);
        out.push(row);
        i = i + 1;
    }
    assert(num_mat(out@) =~= product_of(sa, sb, cols as nat));
    out
}

} // verus!
