//! Random password generation.
use vstd::prelude::*;

use rand::{Rng, SeedableRng};

use crate::error::{EncryptionError, StashError};
use crate::text;

verus! {

pub const DEFAULT_LENGTH: usize = 20;
pub const MIN_LENGTH: usize = 8;
pub const MAX_LENGTH: usize = 128;

/// The lower-case ASCII letters.
pub open spec fn lower() -> Seq<char> {
    Seq::new(26, |i: int| (('a' as int) + i) as char)
}

/// The upper-case ASCII letters.
pub open spec fn upper() -> Seq<char> {
    Seq::new(26, |i: int| (('A' as int) + i) as char)
}

/// The decimal digits.
pub open spec fn digits() -> Seq<char> {
    Seq::new(10, |i: int| (('0' as int) + i) as char)
}

/// The symbols a generated password may hold.
pub open spec fn symbols() -> Seq<char> {
    seq!['!', '@', '#', '$', '%', '^', '&', '*', '(', ')', '-', '_', '=', '+', '[', ']', '{', '}']
}

/// The four character classes, in order.
pub open spec fn class(k: int) -> Seq<char> {
    if k == 0 {
        lower()
    } else if k == 1 {
        upper()
    } else if k == 2 {
        digits()
    } else {
        symbols()
    }
}

/// Every character a generated password may hold.
pub open spec fn alphabet() -> Seq<char> {
    lower() + upper() + digits() + symbols()
}

/// Whether `p` holds a character of class `k`.
pub open spec fn has_class_char(p: Seq<char>, k: int) -> bool {
    exists|i: int| 0 <= i < p.len() && class(k).contains(#[trigger] p[i])
}

/// What every generated password satisfies: its length, its characters
/// drawn from the alphabet, and at least one character of each class.
pub open spec fn is_generated_password(p: Seq<char>, length: nat) -> bool {
    &&& p.len() == length
    &&& forall|i: int| 0 <= i < p.len() ==> alphabet().contains(#[trigger] p[i])
    &&& forall|k: int| 0 <= k < 4 ==> #[trigger] has_class_char(p, k)
}

#[verifier::external_type_specification]
#[verifier::external_body]
pub struct ExStdRng(rand::rngs::StdRng);

/// Calls `SeedableRng::from_rng(rand::rngs::OsRng)` for
/// `rand::rngs::StdRng`: a generator seeded from the operating system's
/// random source. It fails when that source fails; what the generator will
/// draw depends on chance, so nothing is claimed of it.
#[verifier::external_body]
fn seeded_rng() -> (res: Result<rand::rngs::StdRng, rand::Error>) {
    rand::rngs::StdRng::from_rng(rand::rngs::OsRng)
}

/// Calls `Rng::gen_range(0..upper)` on the generator: a uniformly drawn
/// number below `upper`. `gen_range` panics on an empty range, which
/// `requires` leaves out; drawing from a seeded `StdRng` does not fail.
#[verifier::external_body]
fn random_below(rng: &mut rand::rngs::StdRng, upper: usize) -> (r: usize)
    requires
        upper > 0,
    ensures
        r < upper,
{
    rng.gen_range(0..upper)
}

/// The size of class `k`.
fn class_len(k: usize) -> (n: usize)
    requires
        k < 4,
    ensures
        n == class(k as int).len(),
{
    if k == 0 {
        26
    } else if k == 1 {
        26
    } else if k == 2 {
        10
    } else {
        18
    }
}

/// The `i`-th symbol.
fn symbol(i: usize) -> (c: char)
    requires
        i < 18,
    ensures
        c == symbols()[i as int],
{
    match i {
        0 => '!',
        1 => '@',
        2 => '#',
        3 => '$',
        4 => '%',
        5 => '^',
        6 => '&',
        7 => '*',
        8 => '(',
        9 => ')',
        10 => '-',
        11 => '_',
        12 => '=',
        13 => '+',
        14 => '[',
        15 => ']',
        16 => '{',
        _ => '}',
    }
}

/// The `i`-th character of class `k`.
fn class_char(k: usize, i: usize) -> (c: char)
    requires
        k < 4,
        i < class(k as int).len(),
    ensures
        c == class(k as int)[i as int],
{
    if k == 0 {
        ((97 + i) as u8) as char
    } else if k == 1 {
        ((65 + i) as u8) as char
    } else if k == 2 {
        ((48 + i) as u8) as char
    } else {
        symbol(i)
    }
}

/// The `i`-th character of the alphabet.
fn alphabet_char(i: usize) -> (c: char)
    requires
        i < alphabet().len(),
    ensures
        c == alphabet()[i as int],
{
    if i < 26 {
        class_char(0, i)
    } else if i < 52 {
        class_char(1, i - 26)
    } else if i < 62 {
        class_char(2, i - 52)
    } else {
        class_char(3, i - 62)
    }
}

/// Every class lies within the alphabet.
proof fn lemma_class_in_alphabet(k: int, i: int)
    requires
        0 <= k < 4,
        0 <= i < class(k).len(),
    ensures
        alphabet().contains(class(k)[i]),
{
    let a = alphabet();
    let off: int = if k == 0 {
        0
    } else if k == 1 {
        26
    } else if k == 2 {
        52
    } else {
        62
    };
    assert(a[off + i] == class(k)[i]);
}

/// Whether `draws` are the random numbers a password of `length` characters
/// is made from: one pick in each of the four classes, one pick in the
/// alphabet for each further character, then one swap partner for each
/// position from the last down to the second, each below its bound.
pub open spec fn draws_valid(length: nat, draws: Seq<usize>) -> bool {
    &&& 4 <= length
    &&& draws.len() == 2 * length - 1
    &&& forall|k: int| 0 <= k < 4 ==> #[trigger] draws[k] < class(k).len()
    &&& forall|k: int| 4 <= k < length ==> #[trigger] draws[k] < alphabet().len()
    &&& forall|t: int| 0 <= t < length - 1 ==> #[trigger] draws[length + t] < length - t
}

/// The characters before shuffling: the class picks, then the fills.
pub open spec fn initial_chars(length: nat, draws: Seq<usize>) -> Seq<char> {
    Seq::new(
        length,
        |m: int|
            if m < 4 {
                class(m)[draws[m] as int]
            } else {
                alphabet()[draws[m] as int]
            },
    )
}

/// Swaps position `i` with the drawn position, then goes on with `i - 1`,
/// taking the draws from `off` on.
pub open spec fn shuffle_from(s: Seq<char>, draws: Seq<usize>, off: int, i: nat) -> Seq<char>
    decreases i,
{
    if i == 0 {
        s
    } else {
        let j = draws[off] as int;
        shuffle_from(s.update(i as int, s[j]).update(j, s[i as int]), draws, off + 1, (i - 1) as nat)
    }
}

/// The password that the draws give.
pub open spec fn spec_password_from_draws(length: nat, draws: Seq<usize>) -> Seq<char> {
    shuffle_from(initial_chars(length, draws), draws, length as int, (length - 1) as nat)
}

/// The password that the draws give: a character of each class, then
/// characters of the alphabet, shuffled by the swap draws from the last
/// position down. It is a generated password of `length` characters.
pub fn password_from_draws(length: usize, draws: &[usize]) -> (p: String)
    requires
        draws_valid(length as nat, draws@),
    ensures
        p@ == spec_password_from_draws(length as nat, draws@),
        is_generated_password(p@, length as nat),
{
    let ghost init = initial_chars(length as nat, draws@);
    let mut chars: Vec<char> = Vec::new();
    let mut k: usize = 0;
    while k < length
        invariant
            draws_valid(length as nat, draws@),
            k <= length,
            init == initial_chars(length as nat, draws@),
            chars@ == init.take(k as int),
        decreases length - k,
    {
        let c = if k < 4 {
            class_char(k, draws[k])
        } else {
            alphabet_char(draws[k])
        };
        chars.push(c);
        k = k + 1;
        proof {
            assert(chars@ =~= init.take(k as int));
        }
    }
    proof {
        assert(chars@ =~= init);
    }
    // Every character is in the alphabet; the ghost `at` records where the
    // representative of each class currently stands.
    let ghost mut at: Seq<int> = seq![0int, 1int, 2int, 3int];
    proof {
        assert forall|m: int| 0 <= m < chars@.len() implies alphabet().contains(
            #[trigger] chars@[m],
        ) by {
            if m < 4 {
                lemma_class_in_alphabet(m, draws@[m] as int);
            } else {
                assert(alphabet()[draws@[m] as int] == chars@[m]);
            }
        }
        assert forall|c: int| 0 <= c < 4 implies class(c).contains(chars@[c]) by {
            assert(class(c)[draws@[c] as int] == chars@[c]);
        }
    }
    let mut i: usize = length - 1;
    while i > 0
        invariant
            draws_valid(length as nat, draws@),
            i < length,
            chars@.len() == length,
            at.len() == 4,
            shuffle_from(chars@, draws@, length + (length - 1 - i), i as nat)
                == spec_password_from_draws(length as nat, draws@),
            forall|m: int| 0 <= m < chars@.len() ==> alphabet().contains(#[trigger] chars@[m]),
            forall|c: int|
                0 <= c < 4 ==> 0 <= #[trigger] at[c] < chars@.len() && class(c).contains(
                    chars@[at[c]],
                ),
        decreases i,
    {
        let off = draws.len() - i;
        proof {
            let t = length - 1 - i;
            assert(draws@[length + t] < length - t);
        }
        let j = draws[off];
        let a = chars[i];
        let b = chars[j];
        let ghost before = chars@;
        chars.set(i, b);
        chars.set(j, a);
        proof {
            assert(chars@ == before.update(i as int, before[j as int]).update(
                j as int,
                before[i as int],
            ));
            let old_at = at;
            at = Seq::new(
                4,
                |c: int|
                    if old_at[c] == i as int {
                        j as int
                    } else if old_at[c] == j as int {
                        i as int
                    } else {
                        old_at[c]
                    },
            );
        }
        i = i - 1;
    }
    let mut out = String::new();
    let mut m: usize = 0;
    while m < chars.len()
        invariant
            m <= chars@.len(),
            out@ == chars@.subrange(0, m as int),
        decreases chars@.len() - m,
    {
        text::push_char(&mut out, chars[m]);
        m = m + 1;
        assert(out@ == chars@.subrange(0, m as int));
    }
    proof {
        assert(chars@.subrange(0, chars@.len() as int) == chars@);
        assert forall|c: int| 0 <= c < 4 implies #[trigger] has_class_char(out@, c) by {
            assert(class(c).contains(out@[at[c]]));
        }
    }
    out
}

/// Generates a password of `length` characters with at least one lower-case
/// letter, one upper-case letter, one digit and one symbol, in random order.
/// The numbers are drawn from a `StdRng` seeded once from the operating
/// system's random source, where each number could come from that source
/// directly; the password is the one `password_from_draws` makes of them.
/// It fails with `Random` when the operating system's random source fails.
pub fn generate(length: usize) -> (res: Result<String, StashError>)
    ensures
        !(MIN_LENGTH <= length <= MAX_LENGTH) ==> res == Err::<String, StashError>(
            StashError::InvalidGenerateLength { min: MIN_LENGTH, max: MAX_LENGTH },
        ),
        MIN_LENGTH <= length <= MAX_LENGTH ==> (res matches Ok(p) && is_generated_password(
            p@,
            length as nat,
        )) || res == Err::<String, StashError>(
            StashError::EncryptionError(EncryptionError::Random),
        ),
        res matches Ok(p) ==> exists|d: Seq<usize>|
            draws_valid(length as nat, d) && p@ == #[trigger] spec_password_from_draws(
                length as nat,
                d,
            ),
{
    if length < MIN_LENGTH || length > MAX_LENGTH {
        return Err(StashError::InvalidGenerateLength { min: MIN_LENGTH, max: MAX_LENGTH });
    }
    let mut rng = match seeded_rng() {
        Ok(rng) => rng,
        Err(_) => {
            return Err(StashError::EncryptionError(EncryptionError::Random));
        },
    };
    let mut draws: Vec<usize> = Vec::new();
    let mut k: usize = 0;
    while k < length
        invariant
            MIN_LENGTH <= length <= MAX_LENGTH,
            k <= length,
            draws@.len() == k,
            forall|m: int| 0 <= m < 4 && m < k ==> #[trigger] draws@[m] < class(m).len(),
            forall|m: int| 4 <= m < k ==> #[trigger] draws@[m] < alphabet().len(),
        decreases length - k,
    {
        let bound = if k < 4 {
            class_len(k)
        } else {
            80
        };
        draws.push(random_below(&mut rng, bound));
        k = k + 1;
    }
    let mut t: usize = 0;
    while t < length - 1
        invariant
            MIN_LENGTH <= length <= MAX_LENGTH,
            t <= length - 1,
            draws@.len() == length + t,
            forall|m: int| 0 <= m < 4 ==> #[trigger] draws@[m] < class(m).len(),
            forall|m: int| 4 <= m < length ==> #[trigger] draws@[m] < alphabet().len(),
            forall|s: int| 0 <= s < t ==> #[trigger] draws@[length + s] < length - s,
        decreases length - 1 - t,
    {
        draws.push(random_below(&mut rng, length - t));
        t = t + 1;
    }
    let p = password_from_draws(length, draws.as_slice());
    Ok(p)
}

} // verus!
