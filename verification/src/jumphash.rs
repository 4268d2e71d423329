//! Jump consistent hashing (Lamping & Veach) with exact integer arithmetic.
use vstd::prelude::*;
use vstd::string::StringSliceAdditionalSpecFns;

verus! {

/// Multiplier of the linear congruential generator that drives the jumps.
pub const JUMP_MULTIPLIER: u64 = 2862933555777941757u64;

/// One step of the key generator: `key * M + 1` modulo 2^64.
#[verifier::opaque]
pub open spec fn next_key(key: u64) -> u64 {
    key.wrapping_mul(JUMP_MULTIPLIER).wrapping_add(1)
}

/// The next candidate bucket after bucket `b` for the generator state `key`:
/// `floor((b + 1) * 2^31 / ((key >> 33) + 1))`.
#[verifier::opaque]
pub open spec fn next_jump(b: int, key: u64) -> int {
    (b + 1) * 0x8000_0000int / ((key >> 33u64) + 1)
}

proof fn lemma_shift_bound(key: u64)
    ensures
        (key >> 33u64) < 0x8000_0000u64,
{
    assert((key >> 33u64) < 0x8000_0000u64) by (bit_vector);
}

/// A candidate jump always lands strictly past the current bucket.
pub proof fn lemma_next_jump_grows(b: int, key: u64)
    requires
        b >= 0,
    ensures
        next_jump(b, key) > b,
{
    reveal(next_jump);
    lemma_shift_bound(key);
    let d: int = (key >> 33u64) + 1;
    assert(1 <= d <= 0x8000_0000int);
    assert((b + 1) * 0x8000_0000int / d >= b + 1) by (nonlinear_arith)
        requires
            1 <= d <= 0x8000_0000int,
            b >= 0,
    {
        assert((b + 1) * 0x8000_0000int >= (b + 1) * d);
        assert(((b + 1) * d) / d == b + 1);
    }
}

/// The bucket chosen by the jump walk that is at candidate `j` with last accepted
/// bucket `b`, generator state `key`, and `n` buckets.
pub open spec fn jump_walk(key: u64, j: int, b: int, n: int) -> int
    decreases (if j < n { n - j } else { 0 }),
    via jump_walk_decreases
{
    if 0 <= j < n {
        jump_walk(next_key(key), next_jump(j, next_key(key)), j, n)
    } else {
        b
    }
}

/// The jump consistent hash of `key` into `n` buckets (0 when `n` is 0).
pub open spec fn spec_jump_hash(key: u64, n: u32) -> int {
    if n == 0 {
        0
    } else {
        jump_walk(key, 0, -1, n as int)
    }
}

#[via_fn]
proof fn jump_walk_decreases(key: u64, j: int, b: int, n: int) {
    if 0 <= j < n {
        lemma_next_jump_grows(j, next_key(key));
    }
}

proof fn lemma_walk_range(key: u64, j: int, b: int, n: int)
    requires
        0 <= j,
        b < j,
        b < n,
    ensures
        jump_walk(key, j, b, n) < n,
        j < n ==> jump_walk(key, j, b, n) >= j,
        j >= n ==> jump_walk(key, j, b, n) == b,
    decreases (if j < n { n - j } else { 0 }),
{
    if j < n {
        lemma_next_jump_grows(j, next_key(key));
        lemma_walk_range(next_key(key), next_jump(j, next_key(key)), j, n);
    }
}

/// The jump hash of any key into `n > 0` buckets is a bucket index in `[0, n)`.
pub proof fn lemma_jump_hash_in_range(key: u64, n: u32)
    requires
        n > 0,
    ensures
        0 <= spec_jump_hash(key, n) < n,
{
    lemma_walk_range(key, 0, -1, n as int);
}

proof fn lemma_walk_grow(key: u64, j: int, b: int, n: int)
    requires
        0 <= j,
        b < j,
        b < n,
    ensures
        jump_walk(key, j, b, n + 1) == jump_walk(key, j, b, n)
            || jump_walk(key, j, b, n + 1) == n,
    decreases (if j < n { n - j } else { 0 }),
{
    if j < n {
        lemma_next_jump_grows(j, next_key(key));
        lemma_walk_grow(next_key(key), next_jump(j, next_key(key)), j, n);
    } else if j == n {
        lemma_next_jump_grows(j, next_key(key));
        lemma_walk_range(next_key(key), next_jump(j, next_key(key)), j, n + 1);
    }
}

/// Consistency: when one bucket is added, a key either keeps its bucket or moves
/// to the new bucket (index `n`); it never moves between old buckets.
pub proof fn lemma_jump_hash_monotone(key: u64, n: u32)
    requires
        n < u32::MAX,
    ensures
        spec_jump_hash(key, (n + 1) as u32) == spec_jump_hash(key, n)
            || spec_jump_hash(key, (n + 1) as u32) == n,
{
    if n == 0 {
        lemma_walk_range(key, 0, -1, 1);
    } else {
        lemma_walk_grow(key, 0, -1, n as int);
    }
}

/// With one bucket every key goes to bucket 0. With two buckets a key goes to bucket 1
/// exactly when the first generator step, `key * 2862933555777941757 + 1` modulo 2^64,
/// has its top bit set (the first jump then lands on bucket 1, the next one past it).
pub proof fn law_jump_hash_small(key: u64)
    ensures
        spec_jump_hash(key, 1) == 0,
        spec_jump_hash(key, 2) == (if (key as int * 2862933555777941757int + 1)
            % 0x1_0000_0000_0000_0000int >= 0x8000_0000_0000_0000int {
            1int
        } else {
            0int
        }),
{
    lemma_walk_range(key, 0, -1, 1);
    let k1 = next_key(key);
    lemma_next_jump_grows(0, k1);
    lemma_walk_range(k1, next_jump(0, k1), 0, 1);
    let j1 = next_jump(0, k1);
    lemma_walk_range(k1, j1, 0, 2);
    reveal(next_key);
    reveal(next_jump);
    assert(k1 as int == (key as int * 2862933555777941757int + 1) % 0x1_0000_0000_0000_0000int) by {
        let m: int = 0x1_0000_0000_0000_0000;
        let a: int = (key as int * 2862933555777941757int) % m;
        assert(key.wrapping_mul(JUMP_MULTIPLIER) as int == a);
        vstd::arithmetic::div_mod::lemma_add_mod_noop(key as int * 2862933555777941757int, 1, m);
        vstd::arithmetic::div_mod::lemma_small_mod(1, m as nat);
        vstd::arithmetic::div_mod::lemma_mod_twice(key as int * 2862933555777941757int, m);
    }
    let d: int = (k1 >> 33u64) + 1;
    lemma_shift_bound(k1);
    assert(k1 >= 0x8000_0000_0000_0000u64 <==> (k1 >> 33u64) >= 0x4000_0000u64) by (bit_vector);
    assert(j1 == 0x8000_0000int / d);
    assert(j1 < 2 <==> d > 0x4000_0000int) by (nonlinear_arith)
        requires
            j1 == 0x8000_0000int / d,
            1 <= d <= 0x8000_0000int,
    {
        if d > 0x4000_0000int {
            assert(0x8000_0000int < 2 * d);
        } else {
            assert(2 * d <= 0x8000_0000int);
        }
    }
    if j1 < 2 {
        let k2 = next_key(k1);
        lemma_next_jump_grows(j1, k2);
        lemma_walk_range(k2, next_jump(j1, k2), j1, 2);
    }
}

/// Compute the jump consistent hash for a key into `num_buckets` buckets.
/// Returns a bucket index in `[0, num_buckets)`, and 0 for zero buckets.
pub fn jump_hash(key: u64, num_buckets: u32) -> (bucket: u32)
    ensures
        bucket == spec_jump_hash(key, num_buckets),
        num_buckets > 0 ==> bucket < num_buckets,
        num_buckets == 0 ==> bucket == 0,
{
    if num_buckets == 0 {
        return 0;
    }
    let n: u64 = num_buckets as u64;
    let mut key = key;
    let ghost key0 = key;
    let mut b: u64 = 0;
    let mut j: u64 = 0;
    proof {
        lemma_next_jump_grows(0, next_key(key));
        assert(jump_walk(key, 0, 0, n as int) == jump_walk(key, 0, -1, n as int));
    }
    while j < n
        invariant
            n == num_buckets,
            n > 0,
            b < n,
            b <= j,
            j == 0 ==> b == 0,
            j > 0 ==> b < j,
            j <= 0x8000_0000_0000_0000u64,
            jump_walk(key, j as int, if j == 0 { -1 } else { b as int }, n as int)
                == jump_walk(key0, 0, -1, n as int),
        decreases (if j < n { n - j } else { 0 }),
    {
        proof {
            lemma_next_jump_grows(j as int, next_key(key));
            lemma_shift_bound(next_key(key));
        }
        b = j;
        let ghost prev_key = key;
        key = key.wrapping_mul(JUMP_MULTIPLIER).wrapping_add(1);
        assert(key == next_key(prev_key)) by {
            reveal(next_key);
        }
        let d: u64 = (key >> 33u64) + 1;
        assert((b as int + 1) * 0x8000_0000int <= 0x8000_0000_0000_0000int) by (nonlinear_arith)
            requires
                b < 0x1_0000_0000int,
        ;
        let num: u64 = (b + 1) * 0x8000_0000u64;
        assert(num as int / d as int <= num as int) by (nonlinear_arith)
            requires
                d >= 1,
                num >= 0,
        ;
        j = num / d;
        assert(j as int == next_jump(b as int, key)) by {
            reveal(next_jump);
        }
    }
    proof {
        lemma_walk_range(key, j as int, b as int, n as int);
    }
    b as u32
}

/// The FNV-1a 64-bit offset basis.
pub const FNV_OFFSET: u64 = 0xcbf29ce484222325u64;

/// The FNV-1a 64-bit prime.
pub const FNV_PRIME: u64 = 0x100000001b3u64;

/// FNV-1a hash state after absorbing `bytes` starting from `state`.
pub open spec fn fnv1a(state: u64, bytes: Seq<u8>) -> u64
    decreases bytes.len(),
{
    if bytes.len() == 0 {
        state
    } else {
        fnv1a((state ^ (bytes[0] as u64)).wrapping_mul(FNV_PRIME), bytes.drop_first())
    }
}

proof fn lemma_fnv1a_push(state: u64, bytes: Seq<u8>, b: u8)
    ensures
        fnv1a(state, bytes.push(b)) == (fnv1a(state, bytes) ^ (b as u64)).wrapping_mul(
            FNV_PRIME,
        ),
    decreases bytes.len(),
{
    if bytes.len() == 0 {
        assert(bytes.push(b).drop_first() =~= Seq::<u8>::empty());
        assert(bytes.push(b)[0] == b);
        reveal_with_fuel(fnv1a, 2);
    } else {
        assert(bytes.push(b)[0] == bytes[0]);
        assert(bytes.push(b).drop_first() =~= bytes.drop_first().push(b));
        lemma_fnv1a_push(
            (state ^ (bytes[0] as u64)).wrapping_mul(FNV_PRIME),
            bytes.drop_first(),
            b,
        );
    }
}

/// The hash a string key feeds to the jump walk: FNV-1a over its UTF-8 bytes
/// followed by the string terminator byte `0xff`.
pub open spec fn spec_key_hash(key: Seq<u8>) -> u64 {
    fnv1a(FNV_OFFSET, key.push(0xffu8))
}

/// The inverse of `FNV_PRIME` modulo 2^64.
pub const FNV_PRIME_INVERSE: u64 = 0xce965057aff6957bu64;

/// Multiplying by `FNV_PRIME` and then by its inverse (both modulo 2^64) gives back the
/// value.
proof fn lemma_prime_inverse(x: u64)
    ensures
        x.wrapping_mul(FNV_PRIME).wrapping_mul(FNV_PRIME_INVERSE) == x,
{
    let m: int = 0x1_0000_0000_0000_0000;
    let p: int = FNV_PRIME as int;
    let q: int = FNV_PRIME_INVERSE as int;
    let k: int = 887285111055;
    assert(p * q == 1 + k * m) by (nonlinear_arith)
        requires
            p == 0x100000001b3int,
            q == 0xce965057aff6957bint,
            k == 887285111055int,
            m == 0x1_0000_0000_0000_0000int,
    ;
    let a: int = x as int * p;
    vstd::arithmetic::div_mod::lemma_mul_mod_noop_left(a, q, m);
    assert(a * q == x as int + m * (x as int * k)) by (nonlinear_arith)
        requires
            a == x as int * p,
            p * q == 1 + k * m,
    ;
    vstd::arithmetic::div_mod::lemma_mod_multiples_vanish(x as int * k, x as int, m);
    vstd::arithmetic::div_mod::lemma_small_mod(x as nat, m as nat);
}

/// One FNV-1a step is injective in the state.
proof fn lemma_step_injective(x: u64, y: u64, b: u8)
    requires
        (x ^ (b as u64)).wrapping_mul(FNV_PRIME) == (y ^ (b as u64)).wrapping_mul(FNV_PRIME),
    ensures
        x == y,
{
    lemma_prime_inverse(x ^ (b as u64));
    lemma_prime_inverse(y ^ (b as u64));
    let c = b as u64;
    assert((x ^ c) == (y ^ c) ==> x == y) by (bit_vector);
}

/// Absorbing `p` then `q` is absorbing `p + q`.
proof fn lemma_fnv1a_concat(state: u64, p: Seq<u8>, q: Seq<u8>)
    ensures
        fnv1a(state, p + q) == fnv1a(fnv1a(state, p), q),
    decreases p.len(),
{
    if p.len() == 0 {
        assert(p + q =~= q);
    } else {
        assert((p + q)[0] == p[0]);
        assert((p + q).drop_first() =~= p.drop_first() + q);
        lemma_fnv1a_concat((state ^ (p[0] as u64)).wrapping_mul(FNV_PRIME), p.drop_first(), q);
    }
}

/// Absorbing the same bytes from two different states gives different states.
proof fn lemma_fnv1a_state_injective(x: u64, y: u64, s: Seq<u8>)
    requires
        fnv1a(x, s) == fnv1a(y, s),
    ensures
        x == y,
    decreases s.len(),
{
    if s.len() > 0 {
        let x1 = (x ^ (s[0] as u64)).wrapping_mul(FNV_PRIME);
        let y1 = (y ^ (s[0] as u64)).wrapping_mul(FNV_PRIME);
        lemma_fnv1a_state_injective(x1, y1, s.drop_first());
        lemma_step_injective(x, y, s[0]);
    }
}

/// Keys of the same length that differ in exactly one byte have different hashes: the
/// key hash depends on every byte of the key.
pub proof fn law_key_hash_separates_one_byte(a: Seq<u8>, b: Seq<u8>, i: int)
    requires
        a.len() == b.len(),
        0 <= i < a.len(),
        a[i] != b[i],
        forall|j: int| 0 <= j < a.len() && j != i ==> a[j] == b[j],
    ensures
        spec_key_hash(a) != spec_key_hash(b),
{
    let p = a.take(i);
    let q = a.skip(i + 1).push(0xffu8);
    assert(a.push(0xffu8) =~= p + seq![a[i]] + q);
    assert(b.push(0xffu8) =~= p + seq![b[i]] + q);
    let sp = fnv1a(FNV_OFFSET, p);
    lemma_fnv1a_concat(FNV_OFFSET, p + seq![a[i]], q);
    lemma_fnv1a_concat(FNV_OFFSET, p, seq![a[i]]);
    lemma_fnv1a_concat(FNV_OFFSET, p + seq![b[i]], q);
    lemma_fnv1a_concat(FNV_OFFSET, p, seq![b[i]]);
    reveal_with_fuel(fnv1a, 2);
    assert(seq![a[i]].drop_first() =~= Seq::<u8>::empty());
    assert(seq![b[i]].drop_first() =~= Seq::<u8>::empty());
    if spec_key_hash(a) == spec_key_hash(b) {
        lemma_fnv1a_state_injective(
            fnv1a(sp, seq![a[i]]),
            fnv1a(sp, seq![b[i]]),
            q,
        );
        lemma_step_injective_byte(sp, a[i], b[i]);
    }
}

/// One FNV-1a step from the same state with different bytes gives different states.
proof fn lemma_step_injective_byte(x: u64, a: u8, b: u8)
    requires
        a != b,
    ensures
        (x ^ (a as u64)).wrapping_mul(FNV_PRIME) != (x ^ (b as u64)).wrapping_mul(FNV_PRIME),
{
    if (x ^ (a as u64)).wrapping_mul(FNV_PRIME) == (x ^ (b as u64)).wrapping_mul(FNV_PRIME) {
        lemma_prime_inverse(x ^ (a as u64));
        lemma_prime_inverse(x ^ (b as u64));
        let ca = a as u64;
        let cb = b as u64;
        assert((x ^ ca) == (x ^ cb) ==> ca == cb) by (bit_vector);
    }
}

/// The hash of the empty key is the FNV-1a offset basis with the terminator byte `0xff`
/// absorbed, and appending a byte `c` to a key takes its hash `h` to the hash obtained by
/// undoing the terminator step on `h`, absorbing `c`, then absorbing the terminator again
/// (all steps `state -> (state ^ byte) * 0x100000001b3` modulo 2^64).
pub proof fn law_key_hash_extends(k: Seq<u8>, c: u8)
    ensures
        spec_key_hash(Seq::<u8>::empty()) == (0xcbf29ce484222325u64 ^ 0xffu64).wrapping_mul(
            0x100000001b3u64,
        ),
        ({
            let h = spec_key_hash(k);
            let before = h.wrapping_mul(0xce965057aff6957bu64) ^ 0xffu64;
            let after = (before ^ (c as u64)).wrapping_mul(0x100000001b3u64);
            spec_key_hash(k.push(c)) == (after ^ 0xffu64).wrapping_mul(0x100000001b3u64)
        }),
{
    lemma_fnv1a_push(FNV_OFFSET, Seq::<u8>::empty(), 0xffu8);
    assert(Seq::<u8>::empty().push(0xffu8) =~= Seq::<u8>::empty().push(0xffu8));
    let s = fnv1a(FNV_OFFSET, k);
    lemma_fnv1a_push(FNV_OFFSET, k, 0xffu8);
    lemma_fnv1a_push(FNV_OFFSET, k, c);
    lemma_fnv1a_push(FNV_OFFSET, k.push(c), 0xffu8);
    lemma_prime_inverse(s ^ 0xffu64);
    let t = s ^ 0xffu64;
    assert((t ^ 0xffu64) == s) by (bit_vector)
        requires
            t == s ^ 0xffu64,
    ;
}

fn fnv1a_bytes(bytes: &[u8]) -> (h: u64)
    ensures
        h == spec_key_hash(bytes@),
{
    let mut state: u64 = FNV_OFFSET;
    let mut i: usize = 0;
    while i < bytes.len()
        invariant
            i <= bytes@.len(),
            state == fnv1a(FNV_OFFSET, bytes@.take(i as int)),
        decreases bytes@.len() - i,
    {
        proof {
            lemma_fnv1a_push(FNV_OFFSET, bytes@.take(i as int), bytes@[i as int]);
            assert(bytes@.take(i as int).push(bytes@[i as int]) =~= bytes@.take(i + 1));
        }
        state = (state ^ (bytes[i] as u64)).wrapping_mul(FNV_PRIME);
        i = i + 1;
    }
    proof {
        assert(bytes@.take(i as int) =~= bytes@);
        lemma_fnv1a_push(FNV_OFFSET, bytes@, 0xffu8);
    }
    (state ^ 0xffu64).wrapping_mul(FNV_PRIME)
}

/// Number of keys in `0..num_keys` that the jump hash sends to `bucket`.
pub open spec fn bucket_load(num_keys: nat, n: u32, bucket: int) -> nat
    decreases num_keys,
{
    if num_keys == 0 {
        0
    } else {
        bucket_load((num_keys - 1) as nat, n, bucket) + if spec_jump_hash(
            (num_keys - 1) as u64,
            n,
        ) == bucket {
            1nat
        } else {
            0nat
        }
    }
}

proof fn lemma_bucket_load_bound(num_keys: nat, n: u32, bucket: int)
    ensures
        bucket_load(num_keys, n, bucket) <= num_keys,
    decreases num_keys,
{
    if num_keys > 0 {
        lemma_bucket_load_bound((num_keys - 1) as nat, n, bucket);
    }
}

/// A jump consistent hasher that maps keys to buckets.
pub struct JumpHasher {
    num_buckets: u32,
}

impl JumpHasher {
    /// The number of buckets (always at least one).
    pub closed spec fn spec_num_buckets(&self) -> u32 {
        self.num_buckets
    }

    #[verifier::type_invariant]
    spec fn inv(self) -> bool {
        self.num_buckets >= 1
    }

    /// Create a new jump hasher; zero buckets is raised to one.
    pub fn new(num_buckets: u32) -> (h: Self)
        ensures
            h.spec_num_buckets() == if num_buckets == 0 { 1 } else { num_buckets },
    {
        JumpHasher { num_buckets: if num_buckets == 0 { 1 } else { num_buckets } }
    }

    /// Hash a string key to a bucket index.
    pub fn hash_key(&self, key: &str) -> (bucket: u32)
        ensures
            bucket == spec_jump_hash(spec_key_hash(key.spec_bytes()), self.spec_num_buckets()),
            bucket < self.spec_num_buckets(),
    {
        proof {
            use_type_invariant(self);
        }
        let h = fnv1a_bytes(key.as_bytes());
        jump_hash(h, self.num_buckets)
    }

    /// Number of buckets.
    pub fn num_buckets(&self) -> (n: u32)
        ensures
            n == self.spec_num_buckets(),
            n >= 1,
    {
        proof {
            use_type_invariant(self);
        }
        self.num_buckets
    }

    /// Resize to a new number of buckets; zero is raised to one.
    pub fn resize(&mut self, new_buckets: u32)
        ensures
            final(self).spec_num_buckets() == if new_buckets == 0 { 1 } else { new_buckets },
    {
        self.num_buckets = if new_buckets == 0 { 1 } else { new_buckets };
    }

    /// Count, per bucket, how many of the keys `0..num_keys` hash to it.
    pub fn distribution(&self, num_keys: u64) -> (counts: Vec<u64>)
        ensures
            counts@.len() == self.spec_num_buckets(),
            forall|b: int|
                0 <= b < counts@.len() ==> counts@[b] == bucket_load(
                    num_keys as nat,
                    self.spec_num_buckets(),
                    b,
                ),
    {
        proof {
            use_type_invariant(self);
        }
        let n = self.num_buckets;
        let mut counts: Vec<u64> = Vec::new();
        let mut i: u32 = 0;
        while i < n
            invariant
                i <= n,
                counts@.len() == i,
                forall|b: int| 0 <= b < i ==> counts@[b] == 0,
            decreases n - i,
        {
            counts.push(0);
            i = i + 1;
        }
        let mut key: u64 = 0;
        while key < num_keys
            invariant
                n == self.spec_num_buckets(),
                n >= 1,
                key <= num_keys,
                counts@.len() == n,
                forall|b: int|
                    0 <= b < counts@.len() ==> counts@[b] == bucket_load(key as nat, n, b),
            decreases num_keys - key,
        {
            let bucket = jump_hash(key, n) as usize;
            proof {
                lemma_bucket_load_bound(key as nat, n, bucket as int);
            }
            let c = counts[bucket];
            counts.set(bucket, c.saturating_add(1));
            assert forall|b: int| 0 <= b < counts@.len() implies counts@[b] == bucket_load(
                (key + 1) as nat,
                n,
                b,
            ) by {
                assert(bucket_load((key + 1) as nat, n, b) == bucket_load(key as nat, n, b) + if
                spec_jump_hash(key, n) == b {
                    1nat
                } else {
                    0nat
                });
            }
            key = key + 1;
        }
        counts
    }
}

} // verus!
