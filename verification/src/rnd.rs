use vstd::prelude::*;

verus! {

/// The multiplier of the linear congruential generator.
pub const RND_MULTIPLIER: u64 = 1103515245;

/// The increment of the linear congruential generator.
pub const RND_INCREMENT: u64 = 12345;

/// The modulus of the linear congruential generator, `1 << 31`.
pub const RND_MODULUS: u64 = 0x8000_0000;

/// The seed that follows `seed`.
pub open spec fn lcg_step(seed: u64) -> u64 {
    ((RND_MULTIPLIER * seed + RND_INCREMENT) % (RND_MODULUS as int)) as u64
}

/// Whether the next seed can be computed from `seed` without overflowing a `u64`.
pub open spec fn lcg_step_fits(seed: u64) -> bool {
    RND_MULTIPLIER * seed + RND_INCREMENT <= u64::MAX
}

/// The first `n` numbers that a generator seeded with `seed` hands out.
pub open spec fn rnd_sequence(seed: u64, n: nat) -> Seq<u64>
    decreases n,
{
    if n == 0 {
        Seq::empty()
    } else {
        seq![seed] + rnd_sequence(lcg_step(seed), (n - 1) as nat)
    }
}

/// A simple pseudo-random number generator for the tests.
pub struct Rnd {
    seed: u64,
}

impl View for Rnd {
    type V = u64;

    /// The seed, which is also the next number handed out.
    closed spec fn view(&self) -> u64 {
        self.seed
    }
}

impl Rnd {
    pub fn new(seed: u64) -> (r: Rnd)
        ensures
            r@ == seed,
    {
        Rnd { seed: seed }
    }

    /// Hands out the current seed and moves to the next one.
    pub fn next(&mut self) -> (r: u64)
        requires
            lcg_step_fits(old(self)@),
        ensures
            r == old(self)@,
            final(self)@ == lcg_step(old(self)@),
            final(self)@ == (1103515245 * old(self)@ + 12345) % 0x8000_0000,
            final(self)@ < RND_MODULUS,
            lcg_step_fits(final(self)@),
    {
        let r = self.seed;
        self.seed = (RND_MULTIPLIER * r + RND_INCREMENT) % RND_MODULUS;
        proof {
            lemma_small_seed_fits(self.seed);
        }
        r
    }

    /// A number below `max`.
    pub fn next_num(&mut self, max: u64) -> (r: u64)
        requires
            max > 0,
            lcg_step_fits(old(self)@),
        ensures
            r == old(self)@ % max,
            r < max,
            final(self)@ == lcg_step(old(self)@),
    {
        self.next() % max
    }

    /// A number in `min..max`.
    pub fn next_num_range(&mut self, min: u64, max: u64) -> (r: u64)
        requires
            min < max,
            lcg_step_fits(old(self)@),
        ensures
            r == old(self)@ % ((max - min) as u64) + min,
            min <= r < max,
            final(self)@ == lcg_step(old(self)@),
    {
        let r = max - min;
        (self.next() % r) + min
    }

    /// The next `n` numbers, in the order in which they are handed out.
    pub fn take(self, n: usize) -> (v: Vec<u64>)
        requires
            n > 0 ==> lcg_step_fits(self@),
        ensures
            v@ == rnd_sequence(self@, n as nat),
    {
        let mut rnd = self;
        let mut v: Vec<u64> = Vec::new();
        let mut i: usize = 0;
        while i < n
            invariant
                i <= n,
                i < n ==> lcg_step_fits(rnd@),
                v@ + rnd_sequence(rnd@, (n - i) as nat) == rnd_sequence(self@, n as nat),
            decreases n - i,
        {
            let ghost before = rnd@;
            let x = rnd.next();
            proof {
                assert(rnd_sequence(before, (n - i) as nat) == seq![x] + rnd_sequence(
                    rnd@,
                    (n - i - 1) as nat,
                ));
                assert(v@.push(x) + rnd_sequence(rnd@, (n - i - 1) as nat) == v@ + (seq![x]
                    + rnd_sequence(rnd@, (n - i - 1) as nat)));
            }
            v.push(x);
            i = i + 1;
        }
        proof {
            assert(v@ + rnd_sequence(rnd@, 0) == v@);
        }
        v
    }
}

/// Every step, for every seed that can be stepped, is one step of the linear
/// congruential generator `seed * 1103515245 + 12345` modulo `2^31`, large seeds
/// included.
pub proof fn lemma_step_is_lcg(seed: u64)
    requires
        1103515245 * seed + 12345 <= u64::MAX,
    ensures
        lcg_step_fits(seed),
        lcg_step(seed) == (1103515245 * seed + 12345) % 0x8000_0000,
        lcg_step(seed) < 0x8000_0000,
{
}

/// A generator hands out its seed first, and then the numbers of a generator
/// started from the seed after one step of `seed * 1103515245 + 12345` modulo `2^31`.
pub proof fn lemma_sequence_shifts(seed: u64, n: nat)
    requires
        n > 0,
    ensures
        rnd_sequence(seed, n)[0] == seed,
        rnd_sequence(seed, n).drop_first() == rnd_sequence(
            ((1103515245 * seed + 12345) % 0x8000_0000) as u64,
            (n - 1) as nat,
        ),
{
    assert(rnd_sequence(seed, n).drop_first() =~= rnd_sequence(lcg_step(seed), (n - 1) as nat));
}

/// A seed below the modulus can always be stepped without overflow.
pub proof fn lemma_small_seed_fits(seed: u64)
    requires
        seed < RND_MODULUS,
    ensures
        lcg_step_fits(seed),
{
    assert(RND_MULTIPLIER * seed <= RND_MULTIPLIER * RND_MODULUS) by (nonlinear_arith)
        requires
            seed < RND_MODULUS,
    ;
}

/// Once a generator has handed out a number, it can go on forever: every seed that
/// follows is below the modulus, so no later step overflows.
pub proof fn lemma_steps_stay_bounded(seed: u64)
    ensures
        lcg_step(seed) < RND_MODULUS,
        lcg_step_fits(lcg_step(seed)),
{
    lemma_small_seed_fits(lcg_step(seed));
}

/// The numbers handed out do not depend on how many are asked for: the first `n`
/// of them are a prefix of the first `m`, for `n <= m`.
pub proof fn lemma_sequence_prefix(seed: u64, n: nat, m: nat)
    requires
        n <= m,
    ensures
        rnd_sequence(seed, m).len() == m,
        rnd_sequence(seed, n) == rnd_sequence(seed, m).subrange(0, n as int),
    decreases n,
{
    lemma_sequence_len(seed, m);
    if n == 0 {
        assert(rnd_sequence(seed, m).subrange(0, 0) =~= Seq::<u64>::empty());
    } else {
        lemma_sequence_prefix(lcg_step(seed), (n - 1) as nat, (m - 1) as nat);
        lemma_sequence_len(lcg_step(seed), (m - 1) as nat);
        assert(rnd_sequence(seed, n) =~= rnd_sequence(seed, m).subrange(0, n as int));
    }
}

/// The sequence of `n` numbers has length `n`.
pub proof fn lemma_sequence_len(seed: u64, n: nat)
    ensures
        rnd_sequence(seed, n).len() == n,
    decreases n,
{
    if n > 0 {
        lemma_sequence_len(lcg_step(seed), (n - 1) as nat);
    }
}

} // verus!
