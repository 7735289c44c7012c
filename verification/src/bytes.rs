use vstd::prelude::*;

verus! {

// Byte-sequence helpers shared by the reader, the parser and the response
// writer: two-byte delimiter search, slice comparison, prefix test, and
// decimal formatting and parsing of lengths.

/// Index of the first occurrence of the two-byte delimiter `a b` in `s`,
/// if there is one.
pub open spec fn delim_pos(s: Seq<u8>, a: u8, b: u8) -> Option<int>
    decreases s.len(),
{
    if s.len() < 2 {
        None
    } else if s[0] == a && s[1] == b {
        Some(0)
    } else {
        match delim_pos(s.skip(1), a, b) {
            Some(i) => Some(i + 1),
            None => None,
        }
    }
}

/// `delim_pos` finds a real occurrence, the first one; `None` means there is
/// no occurrence at all.
pub proof fn lemma_delim_pos(s: Seq<u8>, a: u8, b: u8)
    ensures
        match delim_pos(s, a, b) {
            Some(i) => 0 <= i && i + 2 <= s.len() && s[i] == a && s[i + 1] == b && (forall|j: int|
                #![trigger s[j]]
                0 <= j < i ==> !(s[j] == a && s[j + 1] == b)),
            None => forall|j: int|
                #![trigger s[j]]
                0 <= j && j + 2 <= s.len() ==> !(s[j] == a && s[j + 1] == b),
        },
    decreases s.len(),
{
    if s.len() < 2 {
    } else if s[0] == a && s[1] == b {
    } else {
        lemma_delim_pos(s.skip(1), a, b);
        assert forall|j: int| 0 <= j && j + 1 < s.len() implies s.skip(1)[j] == s[j + 1] by {}
        match delim_pos(s.skip(1), a, b) {
            Some(i) => {
                assert forall|j: int| #![trigger s[j]] 0 <= j < i + 1 implies !(s[j] == a && s[j
                    + 1] == b) by {
                    if 1 <= j {
                        assert(!(s.skip(1)[j - 1] == a && s.skip(1)[j] == b));
                    }
                }
            },
            None => {
                assert forall|j: int| #![trigger s[j]] 0 <= j && j + 2 <= s.len() implies !(s[j]
                    == a && s[j + 1] == b) by {
                    if 1 <= j {
                        assert(!(s.skip(1)[j - 1] == a && s.skip(1)[j] == b));
                    }
                }
            },
        }
    }
}

/// First occurrence of the two-byte delimiter `a b` in `s`.
pub fn find_delim(s: &[u8], a: u8, b: u8) -> (r: Option<usize>)
    ensures
        match r {
            Some(i) => delim_pos(s@, a, b) == Some(i as int),
            None => delim_pos(s@, a, b) is None,
        },
{
    let n = s.len();
    if n < 2 {
        proof {
            lemma_delim_pos(s@, a, b);
        }
        return None;
    }
    let mut i: usize = 0;
    while i < n - 1
        invariant
            n == s@.len(),
            2 <= n,
            0 <= i <= n,
            forall|j: int| #![trigger s@[j]] 0 <= j < i ==> !(s@[j] == a && s@[j + 1] == b),
        decreases n - i,
    {
        if s[i] == a && s[i + 1] == b {
            proof {
                lemma_delim_pos(s@, a, b);
            }
            return Some(i);
        }
        i = i + 1;
    }
    proof {
        lemma_delim_pos(s@, a, b);
    }
    None
}

/// Byte-for-byte equality of two slices.
pub fn bytes_eq(x: &[u8], y: &[u8]) -> (r: bool)
    ensures
        r == (x@ == y@),
{
    if x.len() != y.len() {
        return false;
    }
    let n = x.len();
    let mut i: usize = 0;
    while i < n
        invariant
            n == x@.len() == y@.len(),
            0 <= i <= n,
            forall|j: int| 0 <= j < i ==> x@[j] == y@[j],
        decreases n - i,
    {
        if x[i] != y[i] {
            return false;
        }
        i = i + 1;
    }
    proof {
        assert(x@ =~= y@);
    }
    true
}

/// Does `s` start with `p`?
pub fn starts_with(s: &[u8], p: &[u8]) -> (r: bool)
    ensures
        r == p@.is_prefix_of(s@),
{
    if p.len() > s.len() {
        return false;
    }
    let n = p.len();
    let mut i: usize = 0;
    while i < n
        invariant
            n == p@.len() <= s@.len(),
            0 <= i <= n,
            forall|j: int| 0 <= j < i ==> s@[j] == p@[j],
        decreases n - i,
    {
        if s[i] != p[i] {
            return false;
        }
        i = i + 1;
    }
    proof {
        assert(p@ =~= s@.subrange(0, p@.len() as int));
    }
    true
}

/// Index of the first occurrence of byte `b` in `s`, if there is one.
pub open spec fn byte_pos(s: Seq<u8>, b: u8) -> Option<int>
    decreases s.len(),
{
    if s.len() == 0 {
        None
    } else if s[0] == b {
        Some(0)
    } else {
        match byte_pos(s.skip(1), b) {
            Some(i) => Some(i + 1),
            None => None,
        }
    }
}

/// `byte_pos` finds a real occurrence, the first one; `None` means there is
/// no occurrence at all.
pub proof fn lemma_byte_pos(s: Seq<u8>, b: u8)
    ensures
        match byte_pos(s, b) {
            Some(i) => 0 <= i < s.len() && s[i] == b && (forall|j: int|
                #![trigger s[j]]
                0 <= j < i ==> s[j] != b),
            None => forall|j: int| #![trigger s[j]] 0 <= j < s.len() ==> s[j] != b,
        },
    decreases s.len(),
{
    if s.len() == 0 {
    } else if s[0] == b {
    } else {
        lemma_byte_pos(s.skip(1), b);
        assert forall|j: int| 0 <= j && j + 1 < s.len() implies s.skip(1)[j] == s[j + 1] by {}
        match byte_pos(s.skip(1), b) {
            Some(i) => {
                assert forall|j: int| #![trigger s[j]] 0 <= j < i + 1 implies s[j] != b by {
                    if 1 <= j {
                        assert(s.skip(1)[j - 1] != b);
                    }
                }
            },
            None => {
                assert forall|j: int| #![trigger s[j]] 0 <= j < s.len() implies s[j] != b by {
                    if 1 <= j {
                        assert(s.skip(1)[j - 1] != b);
                    }
                }
            },
        }
    }
}

/// First occurrence of byte `b` in `s`.
pub fn find_byte(s: &[u8], b: u8) -> (r: Option<usize>)
    ensures
        match r {
            Some(i) => byte_pos(s@, b) == Some(i as int),
            None => byte_pos(s@, b) is None,
        },
{
    let n = s.len();
    let mut i: usize = 0;
    while i < n
        invariant
            n == s@.len(),
            0 <= i <= n,
            forall|j: int| #![trigger s@[j]] 0 <= j < i ==> s@[j] != b,
        decreases n - i,
    {
        if s[i] == b {
            proof {
                lemma_byte_pos(s@, b);
            }
            return Some(i);
        }
        i = i + 1;
    }
    proof {
        lemma_byte_pos(s@, b);
    }
    None
}

/// Does byte `b` occur in `s`?
pub open spec fn contains_byte(s: Seq<u8>, b: u8) -> bool {
    exists|i: int| 0 <= i < s.len() && s[i] == b
}

/// Scan `s` for byte `b`.
pub fn has_byte(s: &[u8], b: u8) -> (r: bool)
    ensures
        r == contains_byte(s@, b),
{
    let n = s.len();
    let mut i: usize = 0;
    while i < n
        invariant
            n == s@.len(),
            0 <= i <= n,
            forall|j: int| 0 <= j < i ==> s@[j] != b,
        decreases n - i,
    {
        if s[i] == b {
            return true;
        }
        i = i + 1;
    }
    false
}

// --- decimal numbers, for Content-Length values ---

/// Is `b` an ASCII decimal digit?
pub open spec fn is_digit(b: u8) -> bool {
    48 <= b <= 57
}

/// Is every byte of `s` an ASCII decimal digit?
pub open spec fn all_digits(s: Seq<u8>) -> bool {
    forall|i: int| 0 <= i < s.len() ==> is_digit(#[trigger] s[i])
}

/// The decimal digits of `n`, most significant first, no sign, no leading
/// zero (except for `n == 0` itself).
pub open spec fn dec_of(n: nat) -> Seq<u8>
    decreases n,
{
    if n < 10 {
        seq![(48 + n) as u8]
    } else {
        dec_of(n / 10).push((48 + n % 10) as u8)
    }
}

/// The value of a digit sequence read as a decimal number.
pub open spec fn dec_val(s: Seq<u8>) -> nat
    decreases s.len(),
{
    if s.len() == 0 {
        0
    } else {
        dec_val(s.drop_last()) * 10 + ((s.last() - 48) as nat)
    }
}

/// A sequence of bytes read as a non-negative decimal number: defined
/// exactly when the sequence is non-empty and all digits.
pub open spec fn dec_parse(s: Seq<u8>) -> Option<nat> {
    if s.len() > 0 && all_digits(s) {
        Some(dec_val(s))
    } else {
        None
    }
}

/// `dec_of(n)` is a non-empty digit string.
pub proof fn lemma_dec_of_digits(n: nat)
    ensures
        dec_of(n).len() >= 1,
        all_digits(dec_of(n)),
    decreases n,
{
    if n < 10 {
    } else {
        lemma_dec_of_digits(n / 10);
    }
}

/// Reading back the digits of `n` yields `n`.
pub proof fn lemma_dec_val_of(n: nat)
    ensures
        dec_val(dec_of(n)) == n,
    decreases n,
{
    if n < 10 {
        assert(dec_of(n) == seq![(48 + n) as u8]);
        assert(dec_of(n).drop_last() =~= Seq::<u8>::empty());
        assert(dec_val(dec_of(n).drop_last()) == 0);
        assert(dec_of(n).last() == (48 + n) as u8);
        assert(dec_val(dec_of(n)) == ((48 + n) as u8 - 48) as nat);
    } else {
        lemma_dec_val_of(n / 10);
        assert(dec_of(n) == dec_of(n / 10).push((48 + n % 10) as u8));
        assert(dec_of(n).drop_last() =~= dec_of(n / 10));
        assert(dec_of(n).last() == (48 + n % 10) as u8);
        assert(n % 10 < 10);
        assert(((48 + n % 10) as u8 - 48) as nat == n % 10);
        assert(dec_of(n).len() > 0);
        assert(dec_val(dec_of(n)) == dec_val(dec_of(n).drop_last()) * 10 + ((dec_of(n).last()
            - 48) as nat));
        assert(dec_val(dec_of(n).drop_last()) == n / 10);
        assert(dec_val(dec_of(n)) == (n / 10) * 10 + n % 10);
        assert(n == (n / 10) * 10 + n % 10) by (nonlinear_arith);
    }
}

/// Formatting then parsing a number is the identity.
pub proof fn lemma_dec_roundtrip(n: nat)
    ensures
        dec_parse(dec_of(n)) == Some(n),
{
    lemma_dec_of_digits(n);
    lemma_dec_val_of(n);
}

/// A prefix of a digit string never reads as a larger number than the whole.
pub proof fn lemma_dec_val_mono(s: Seq<u8>, i: int)
    requires
        0 <= i <= s.len(),
    ensures
        dec_val(s.take(i)) <= dec_val(s),
    decreases s.len(),
{
    if i == s.len() {
        assert(s.take(i) =~= s);
    } else {
        assert(s.drop_last().take(i) =~= s.take(i));
        lemma_dec_val_mono(s.drop_last(), i);
        assert(dec_val(s.drop_last()) * 10 >= dec_val(s.drop_last())) by (nonlinear_arith);
    }
}

/// The decimal digits of `n`, most significant first.
pub fn fmt_usize(n: usize) -> (r: Vec<u8>)
    ensures
        r@ == dec_of(n as nat),
    decreases n,
{
    if n < 10 {
        let r: Vec<u8> = vec![48 + (n as u8)];
        proof {
            assert(r@ =~= dec_of(n as nat));
        }
        r
    } else {
        let mut r = fmt_usize(n / 10);
        r.push(48 + ((n % 10) as u8));
        proof {
            assert(r@ =~= dec_of(n as nat));
        }
        r
    }
}

/// Parse `s` as a non-negative decimal number; `None` on an empty or
/// non-digit string, and on a value that does not fit in `usize`.
pub fn parse_dec(s: &[u8]) -> (r: Option<usize>)
    ensures
        match dec_parse(s@) {
            Some(v) => if v <= usize::MAX { r == Some(v as usize) } else { r is None },
            None => r is None,
        },
{
    let n = s.len();
    if n == 0 {
        return None;
    }
    let mut acc: usize = 0;
    let mut i: usize = 0;
    while i < n
        invariant
            n == s@.len(),
            0 <= i <= n,
            all_digits(s@.take(i as int)),
            acc == dec_val(s@.take(i as int)),
        decreases n - i,
    {
        let b = s[i];
        if b < 48 || b > 57 {
            assert(!is_digit(s@[i as int]));
            return None;
        }
        let d = (b - 48) as usize;
        proof {
            assert(s@.take(i + 1).drop_last() =~= s@.take(i as int));
            assert(s@.take(i + 1).last() == b);
        }
        let next = match acc.checked_mul(10) {
            Some(m) => m.checked_add(d),
            None => None,
        };
        match next {
            Some(a2) => {
                acc = a2;
            },
            None => {
                proof {
                    assert(dec_val(s@.take(i + 1)) > usize::MAX);
                    lemma_dec_val_mono(s@, i + 1);
                }
                return None;
            },
        }
        i = i + 1;
    }
    proof {
        assert(s@.take(n as int) =~= s@);
    }
    Some(acc)
}

} // verus!
