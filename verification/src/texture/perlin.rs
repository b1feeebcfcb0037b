use vstd::prelude::*;
use crate::scalar::Scalar;
use crate::utils::random_below;
use crate::vec3::Vec3;

verus! {

/// The number of lattice gradients, and of entries in each permutation.
pub const SIZE: usize = 256;

/// Lattice gradients and the three permutations that address them.
#[derive(Clone, Debug)]
pub struct Perlin {
    pub ranvec: Vec<Vec3>,
    pub perm_x: Vec<usize>,
    pub perm_y: Vec<usize>,
    pub perm_z: Vec<usize>,
}

/// The numbers from 0 up to but without `n`, in order.
pub open spec fn counting(n: nat) -> Seq<usize> {
    Seq::new(n, |i: int| i as usize)
}

/// `perm` holds the numbers below 256, each once, in some order.
pub open spec fn is_permutation(perm: Seq<usize>) -> bool {
    perm.to_multiset() == counting(SIZE as nat).to_multiset()
}

/// Every entry of a permutation is below 256, and there are 256 of them.
pub proof fn lemma_permutation_is_bounded(perm: Seq<usize>)
    requires
        is_permutation(perm),
    ensures
        perm.len() == SIZE,
        forall|i: int| 0 <= i < perm.len() ==> (#[trigger] perm[i]) < SIZE,
{
    let all = counting(SIZE as nat);
    vstd::seq_lib::to_multiset_len(perm);
    vstd::seq_lib::to_multiset_len(all);
    assert forall|i: int| 0 <= i < perm.len() implies (#[trigger] perm[i]) < SIZE by {
        let x = perm[i];
        assert(perm.contains(x));
        vstd::seq_lib::to_multiset_contains(perm, x);
        vstd::seq_lib::to_multiset_contains(all, x);
        let at = choose|at: int| 0 <= at < all.len() && all[at] == x;
        assert(all[at] == at);
    }
}

/// The coordinate `i + d` taken round at 256.
pub open spec fn wrapped(i: usize, d: usize) -> int {
    (i as int % 256 + d as int) % 256
}

/// The place of a corner of the unit cube among the eight.
pub fn index(i: usize, j: usize, k: usize) -> (at: usize)
    requires
        i < 2,
        j < 2,
        k < 2,
    ensures
        at == i * 4 + j * 2 + k,
        at < 8,
{
    i * 2 * 2 + j * 2 + k
}

fn swap_entries(perm: &mut Vec<usize>, i: usize, j: usize)
    requires
        i < old(perm).len(),
        j < old(perm).len(),
    ensures
        final(perm)@ == old(perm)@.update(i as int, old(perm)@[j as int]).update(
            j as int,
            old(perm)@[i as int],
        ),
        final(perm)@.to_multiset() == old(perm)@.to_multiset(),
{
    let a = perm[i];
    let b = perm[j];
    perm.set(i, b);
    perm.set(j, a);
    proof {
        let before = old(perm)@;
        let mid = before.update(i as int, b);
        vstd::seq_lib::to_multiset_update(before, i as int, b);
        vstd::seq_lib::to_multiset_update(mid, j as int, a);
        if i == j {
            assert(perm@ =~= before);
        } else {
            broadcast use vstd::multiset::group_multiset_axioms;

            assert(mid[j as int] == b);
            assert(before.contains(a));
            assert(before.contains(b));
            vstd::seq_lib::to_multiset_contains(before, a);
            vstd::seq_lib::to_multiset_contains(before, b);
            assert(before.to_multiset().insert(b).remove(a).insert(a).remove(b) =~= before.to_multiset());
        }
    }
}

impl Perlin {
    /// There are 256 gradients, and each of the three tables is a
    /// permutation of the numbers below 256.
    pub open spec fn wf(&self) -> bool {
        &&& self.ranvec@.len() == SIZE
        &&& is_permutation(self.perm_x@)
        &&& is_permutation(self.perm_y@)
        &&& is_permutation(self.perm_z@)
    }

    /// A generator over the given gradients, with three permutations drawn
    /// at random; `None` unless there are 256 gradients.
    pub fn new(ranvec: Vec<Vec3>) -> (p: Option<Perlin>)
        ensures
            p.is_some() == (ranvec@.len() == SIZE),
            p.is_some() ==> p.unwrap().wf() && p.unwrap().ranvec@ == ranvec@,
    {
        if ranvec.len() != SIZE {
            return None;
        }
        Some(
            Perlin {
                ranvec,
                perm_x: Perlin::generate_perm(),
                perm_y: Perlin::generate_perm(),
                perm_z: Perlin::generate_perm(),
            },
        )
    }

    /// The numbers below 256 in an order drawn at random.
    pub fn generate_perm() -> (perm: Vec<usize>)
        ensures
            is_permutation(perm@),
    {
        let mut perm: Vec<usize> = Vec::new();
        let mut i: usize = 0;
        while i < SIZE
            invariant
                i <= SIZE,
                perm@ == counting(i as nat),
            decreases SIZE - i,
        {
            perm.push(i);
            i += 1;
            assert(perm@ =~= counting(i as nat));
        }
        Perlin::permute(&mut perm);
        perm
    }

    /// Shuffles the table: from the last entry down, each is swapped with
    /// one drawn at random from those up to and with itself.
    pub fn permute(perm: &mut Vec<usize>)
        ensures
            final(perm)@.to_multiset() == old(perm)@.to_multiset(),
            final(perm)@.len() == old(perm)@.len(),
            exists|targets: Seq<usize>| #[trigger]
                are_targets(targets, old(perm)@.len()) && final(perm)@ == shuffled(old(perm)@, targets),
    {
        let ghost mut targets: Seq<usize> = Seq::empty();
        let mut i: usize = perm.len();
        while i > 0
            invariant
                i <= perm.len(),
                perm@.len() == old(perm)@.len(),
                perm@.to_multiset() == old(perm)@.to_multiset(),
                targets.len() == perm.len() - i,
                forall|j: int| 0 <= j < targets.len() ==> (#[trigger] targets[j]) <= perm.len() - 1 - j,
                perm@ == shuffled(old(perm)@, targets),
            decreases i,
        {
            i -= 1;
            let target = random_below(i + 1);
            swap_entries(perm, i, target);
            proof {
                let drawn = targets.push(target);
                assert(drawn.drop_last() =~= targets);
                targets = drawn;
            }
        }
        assert(are_targets(targets, old(perm)@.len()));
    }

    /// Shuffles the table by the given draws: from the last entry down, each
    /// is swapped with the entry that its draw names, the first draw being
    /// for the last entry. Says whether the draws fit the table: there is one
    /// for each entry, and none names an entry behind its own. Draws that do
    /// not fit leave the table as it is.
    pub fn permute_with(perm: &mut Vec<usize>, targets: &Vec<usize>) -> (done: bool)
        ensures
            done == are_targets(targets@, old(perm)@.len()),
            done ==> final(perm)@ == shuffled(old(perm)@, targets@),
            !done ==> final(perm)@ == old(perm)@,
            final(perm)@.to_multiset() == old(perm)@.to_multiset(),
            final(perm)@.len() == old(perm)@.len(),
    {
        let n = perm.len();
        if targets.len() != n {
            return false;
        }
        let mut j: usize = 0;
        while j < n
            invariant
                j <= n,
                n == perm.len(),
                n == targets.len(),
                perm@ == old(perm)@,
                forall|k: int| 0 <= k < j ==> (#[trigger] targets@[k]) <= n - 1 - k,
            decreases n - j,
        {
            if targets[j] > n - 1 - j {
                return false;
            }
            j += 1;
        }
        let mut j: usize = 0;
        while j < n
            invariant
                j <= n,
                n == perm.len(),
                n == targets.len(),
                n == old(perm)@.len(),
                are_targets(targets@, n as nat),
                perm@.to_multiset() == old(perm)@.to_multiset(),
                perm@ == shuffled(old(perm)@, targets@.take(j as int)),
            decreases n - j,
        {
            assert(targets@[j as int] <= n - 1 - j);
            swap_entries(perm, n - 1 - j, targets[j]);
            j += 1;
            assert(targets@.take(j as int).drop_last() =~= targets@.take(j - 1));
        }
        assert(targets@.take(n as int) =~= targets@);
        true
    }

    /// The gradient that the corner `(i + di, j + dj, k + dk)` of the lattice
    /// holds: the three coordinates, each taken round at 256 and sent through
    /// its permutation, are combined bit by bit.
    pub open spec fn gradient_of(&self, i: usize, j: usize, k: usize, di: usize, dj: usize, dk: usize) -> Vec3 {
        self.ranvec@[(self.perm_x@[wrapped(i, di)] ^ self.perm_y@[wrapped(j, dj)] ^ self.perm_z@[wrapped(
            k,
            dk,
        )]) as int]
    }

    fn gradient(&self, i: usize, j: usize, k: usize, di: usize, dj: usize, dk: usize) -> (g: Vec3)
        requires
            self.wf(),
            di < 2,
            dj < 2,
            dk < 2,
        ensures
            g == self.gradient_of(i, j, k, di, dj, dk),
    {
        proof {
            lemma_permutation_is_bounded(self.perm_x@);
            lemma_permutation_is_bounded(self.perm_y@);
            lemma_permutation_is_bounded(self.perm_z@);
        }
        let a = self.perm_x[(i % SIZE + di) % SIZE];
        let b = self.perm_y[(j % SIZE + dj) % SIZE];
        let c = self.perm_z[(k % SIZE + dk) % SIZE];
        assert(a ^ b ^ c < 256) by (bit_vector)
            requires
                a < 256,
                b < 256,
                c < 256,
        ;
        self.ranvec[a ^ b ^ c]
    }

    /// The gradients at the eight corners of the lattice cell whose lowest
    /// corner is `(i, j, k)`, the corner `(di, dj, dk)` at place
    /// `4 * di + 2 * dj + dk`.
    pub fn lattice(&self, i: usize, j: usize, k: usize) -> (c: Vec<Vec3>)
        requires
            self.wf(),
        ensures
            c@.len() == 8,
            forall|di: usize, dj: usize, dk: usize|
                di < 2 && dj < 2 && dk < 2 ==> #[trigger] c@[(di * 4 + dj * 2 + dk) as int]
                    == self.gradient_of(i, j, k, di, dj, dk),
    {
        let c = vec![
            self.gradient(i, j, k, 0, 0, 0),
            self.gradient(i, j, k, 0, 0, 1),
            self.gradient(i, j, k, 0, 1, 0),
            self.gradient(i, j, k, 0, 1, 1),
            self.gradient(i, j, k, 1, 0, 0),
            self.gradient(i, j, k, 1, 0, 1),
            self.gradient(i, j, k, 1, 1, 0),
            self.gradient(i, j, k, 1, 1, 1),
        ];
        c
    }

    /// `out` is what `noise` returns, for some outcome of the call made: the
    /// blend of the gradients of the lattice cell that holds the point.
    pub open spec fn noise_outcome<I: Fn(&Vec<Vec3>, &Vec3) -> Scalar>(
        &self,
        point: Vec3,
        interpolate: I,
        out: Scalar,
    ) -> bool {
        exists|c: Vec<Vec3>| #![trigger call_ensures(interpolate, (&c, &point), out)]
            {
                &&& c@.len() == 8
                &&& forall|di: usize, dj: usize, dk: usize|
                    di < 2 && dj < 2 && dk < 2 ==> #[trigger] c@[(di * 4 + dj * 2 + dk) as int]
                        == self.gradient_of(
                        point.x.clipped(usize::MAX as int) as usize,
                        point.y.clipped(usize::MAX as int) as usize,
                        point.z.clipped(usize::MAX as int) as usize,
                        di,
                        dj,
                        dk,
                    )
                &&& call_ensures(interpolate, (&c, &point), out)
            }
    }

    /// The noise at a point. The cell is the one at the whole parts of the
    /// coordinates, a coordinate below zero counting as zero.
    ///
    /// `interpolate(c, p)` blends the eight gradients `c` by the place of `p`
    /// in its cell.
    pub fn noise<I: Fn(&Vec<Vec3>, &Vec3) -> Scalar>(&self, point: &Vec3, interpolate: &I) -> (out: Scalar)
        requires
            self.wf(),
            forall|c: &Vec<Vec3>, p: &Vec3| call_requires(*interpolate, (c, p)),
        ensures
            self.noise_outcome(*point, *interpolate, out),
    {
        let i = point.x.to_usize();
        let j = point.y.to_usize();
        let k = point.z.to_usize();
        let c = self.lattice(i, j, k);
        interpolate(&c, point)
    }
}

/// The table with the entries at `i` and `j` in each other's place.
pub open spec fn swapped(table: Seq<usize>, i: int, j: int) -> Seq<usize> {
    table.update(i, table[j]).update(j, table[i])
}

/// The draws fit a table of `n` entries: there is one for each entry, the
/// first for the last entry, and none names an entry behind its own.
pub open spec fn are_targets(targets: Seq<usize>, n: nat) -> bool {
    &&& targets.len() == n
    &&& forall|j: int| 0 <= j < n ==> (#[trigger] targets[j]) <= n - 1 - j
}

/// The table after a shuffle by the draws: from the last entry down, one
/// entry for each draw, each is swapped with the entry that its draw names.
pub open spec fn shuffled(table: Seq<usize>, targets: Seq<usize>) -> Seq<usize>
    decreases targets.len(),
{
    if targets.len() == 0 {
        table
    } else {
        swapped(
            shuffled(table, targets.drop_last()),
            table.len() - targets.len(),
            targets.last() as int,
        )
    }
}

} // verus!
