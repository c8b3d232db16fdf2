use vstd::prelude::*;

verus! {

/// The decimal digit for `d`, which is below ten.
pub open spec fn digit_char(d: nat) -> char {
    if d == 0 {
        '0'
    } else if d == 1 {
        '1'
    } else if d == 2 {
        '2'
    } else if d == 3 {
        '3'
    } else if d == 4 {
        '4'
    } else if d == 5 {
        '5'
    } else if d == 6 {
        '6'
    } else if d == 7 {
        '7'
    } else if d == 8 {
        '8'
    } else {
        '9'
    }
}

/// The decimal notation of `n`, without leading zeros.
pub open spec fn decimal(n: nat) -> Seq<char>
    decreases n,
{
    if n < 10 {
        seq![digit_char(n)]
    } else {
        decimal(n / 10).push(digit_char(n % 10))
    }
}

fn digit_str(d: u64) -> (r: &'static str)
    requires
        d < 10,
    ensures
        r@ == seq![digit_char(d as nat)],
{
    if d == 0 {
        proof { reveal_strlit("0"); }
        "0"
    } else if d == 1 {
        proof { reveal_strlit("1"); }
        "1"
    } else if d == 2 {
        proof { reveal_strlit("2"); }
        "2"
    } else if d == 3 {
        proof { reveal_strlit("3"); }
        "3"
    } else if d == 4 {
        proof { reveal_strlit("4"); }
        "4"
    } else if d == 5 {
        proof { reveal_strlit("5"); }
        "5"
    } else if d == 6 {
        proof { reveal_strlit("6"); }
        "6"
    } else if d == 7 {
        proof { reveal_strlit("7"); }
        "7"
    } else if d == 8 {
        proof { reveal_strlit("8"); }
        "8"
    } else {
        proof { reveal_strlit("9"); }
        "9"
    }
}

/// Appends the decimal notation of `n` to `s`.
pub fn push_decimal(s: &mut String, n: u64)
    ensures
        final(s)@ == old(s)@ + decimal(n as nat),
    decreases n,
{
    if n >= 10 {
        push_decimal(s, n / 10);
    }
    s.append(digit_str(n % 10));
    assert(s@ =~= old(s)@ + decimal(n as nat));
}

/// The replay hash: starting from `seed`, each byte turns the value `h`
/// into `h * 31 + byte`.
pub open spec fn replay_hash(seed: int, bytes: Seq<u8>) -> int
    decreases bytes.len(),
{
    if bytes.len() == 0 {
        seed
    } else {
        replay_hash(seed, bytes.drop_last()) * 31 + bytes.last()
    }
}

/// Hashing a longer prefix never gives less.
pub proof fn lemma_replay_hash_prefix(seed: int, bytes: Seq<u8>, i: int, j: int)
    requires
        seed >= 0,
        0 <= i <= j <= bytes.len(),
    ensures
        0 <= replay_hash(seed, bytes.take(i)) <= replay_hash(seed, bytes.take(j)),
    decreases j,
{
    if j > 0 {
        assert(bytes.take(j).drop_last() =~= bytes.take(j - 1));
    }
    if i < j {
        lemma_replay_hash_prefix(seed, bytes, i, j - 1);
    } else if j > 0 {
        lemma_replay_hash_prefix(seed, bytes, j - 1, j - 1);
    } else {
        assert(bytes.take(0).len() == 0);
    }
}

/// A larger seed never gives a smaller hash.
pub proof fn lemma_replay_hash_seed(s1: int, s2: int, bytes: Seq<u8>)
    requires
        0 <= s1 <= s2,
    ensures
        0 <= replay_hash(s1, bytes) <= replay_hash(s2, bytes),
    decreases bytes.len(),
{
    if bytes.len() > 0 {
        lemma_replay_hash_seed(s1, s2, bytes.drop_last());
    }
}

/// The replay hash of `bytes` from `seed`, or `None` where it does not fit in 64 bits.
pub fn checked_replay_hash(seed: u32, bytes: &[u8]) -> (r: Option<u64>)
    ensures
        match r {
            Some(h) => h == replay_hash(seed as int, bytes@),
            None => replay_hash(seed as int, bytes@) > u64::MAX,
        },
{
    let n = bytes.len();
    let mut acc: u64 = seed as u64;
    let mut i: usize = 0;
    assert(bytes@.take(0).len() == 0);
    while i < n
        invariant
            n == bytes@.len(),
            i <= n,
            acc == replay_hash(seed as int, bytes@.take(i as int)),
        decreases n - i,
    {
        assert(bytes@.take(i + 1).drop_last() =~= bytes@.take(i as int));
        let b = bytes[i] as u64;
        match acc.checked_mul(31) {
            Some(m) => match m.checked_add(b) {
                Some(next) => {
                    acc = next;
                },
                None => {
                    proof {
                        lemma_replay_hash_prefix(seed as int, bytes@, i + 1, n as int);
                        assert(bytes@.take(n as int) =~= bytes@);
                    }
                    return None;
                },
            },
            None => {
                proof {
                    lemma_replay_hash_prefix(seed as int, bytes@, i + 1, n as int);
                    assert(bytes@.take(n as int) =~= bytes@);
                }
                return None;
            },
        }
        i = i + 1;
    }
    assert(bytes@.take(n as int) =~= bytes@);
    Some(acc)
}

/// The replay hash of `bytes` from `seed`, where it fits in 64 bits.
pub fn replay_hash_exec(seed: u32, bytes: &[u8]) -> (h: u64)
    requires
        replay_hash(seed as int, bytes@) <= u64::MAX,
    ensures
        h == replay_hash(seed as int, bytes@),
{
    let n = bytes.len();
    let mut acc: u64 = seed as u64;
    let mut i: usize = 0;
    assert(bytes@.take(0).len() == 0);
    assert(bytes@.take(n as int) =~= bytes@);
    while i < n
        invariant
            n == bytes@.len(),
            i <= n,
            acc == replay_hash(seed as int, bytes@.take(i as int)),
            replay_hash(seed as int, bytes@.take(n as int)) <= u64::MAX,
        decreases n - i,
    {
        assert(bytes@.take(i + 1).drop_last() =~= bytes@.take(i as int));
        proof {
            lemma_replay_hash_prefix(seed as int, bytes@, i + 1, n as int);
        }
        acc = acc * 31 + bytes[i] as u64;
        i = i + 1;
    }
    acc
}

} // verus!
