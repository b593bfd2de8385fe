//! The text form of a brightness value in the backlight store: a decimal
//! number, read with surrounding whitespace allowed and written as the
//! digits followed by one newline.
use vstd::prelude::*;

verus! {

/// Why an access to the backlight store failed.
#[derive(Clone, Copy, Debug, PartialEq, Eq, Structural)]
pub enum StoreError {
    /// The store could not be read.
    Read,
    /// What the store holds is not a non-negative decimal integer that fits
    /// in a `u32`.
    Parse,
    /// The store refused the new value.
    Write,
}

/// ASCII whitespace: tab, line feed, vertical tab, form feed, carriage
/// return and space.
pub open spec fn is_space(b: u8) -> bool {
    (9 <= b && b <= 13) || b == 32
}

pub open spec fn is_digit(b: u8) -> bool {
    48 <= b && b <= 57
}

/// `s` without its leading whitespace.
pub open spec fn trim_start(s: Seq<u8>) -> Seq<u8>
    decreases s.len(),
{
    if s.len() > 0 && is_space(s[0]) {
        trim_start(s.drop_first())
    } else {
        s
    }
}

/// `s` without its trailing whitespace.
pub open spec fn trim_end(s: Seq<u8>) -> Seq<u8>
    decreases s.len(),
{
    if s.len() > 0 && is_space(s.last()) {
        trim_end(s.drop_last())
    } else {
        s
    }
}

/// `s` without leading or trailing whitespace.
pub open spec fn trim(s: Seq<u8>) -> Seq<u8> {
    trim_end(trim_start(s))
}

pub open spec fn all_digits(s: Seq<u8>) -> bool {
    forall|i: int| 0 <= i < s.len() ==> is_digit(#[trigger] s[i])
}

/// The number that the decimal digits `s` write.
pub open spec fn decimal(s: Seq<u8>) -> nat
    decreases s.len(),
{
    if s.len() == 0 {
        0
    } else {
        decimal(s.drop_last()) * 10 + (s.last() - 48) as nat
    }
}

/// The value that a store holding `text` holds, if it is one: after
/// trimming whitespace, one or more decimal digits whose number fits in a
/// `u32`.
pub open spec fn stored_value(text: Seq<u8>) -> Option<u32> {
    let t = trim(text);
    if t.len() > 0 && all_digits(t) && decimal(t) <= u32::MAX {
        Some(decimal(t) as u32)
    } else {
        None
    }
}

/// The shortest decimal digits of `n`.
pub open spec fn digits(n: nat) -> Seq<u8>
    decreases n,
{
    if n < 10 {
        seq![(n + 48) as u8]
    } else {
        digits(n / 10).push((n % 10 + 48) as u8)
    }
}

/// What is written to the store for the value `v`.
pub open spec fn store_text(v: nat) -> Seq<u8> {
    digits(v).push(10u8)
}

/// Reads the value that the store text `text` holds: a decimal number with
/// optional whitespace around it.
pub fn parse_value(text: &[u8]) -> (r: Result<u32, StoreError>)
    ensures
        r == match stored_value(text@) {
            Some(v) => Ok(v),
            None => Err(StoreError::Parse),
        },
{
    let n = text.len();
    let mut i: usize = 0;
    assert(text@.subrange(0, n as int) =~= text@);
    while i < n && (9 <= text[i] && text[i] <= 13 || text[i] == 32)
        invariant
            i <= n == text@.len(),
            trim_start(text@) == trim_start(text@.subrange(i as int, n as int)),
        decreases n - i,
    {
        assert(text@.subrange(i as int, n as int).drop_first() =~= text@.subrange(
            i + 1,
            n as int,
        ));
        i = i + 1;
    }
    assert(trim_start(text@) == text@.subrange(i as int, n as int));
    let mut j: usize = n;
    while j > i && (9 <= text[j - 1] && text[j - 1] <= 13 || text[j - 1] == 32)
        invariant
            i <= j <= n == text@.len(),
            trim(text@) == trim_end(text@.subrange(i as int, j as int)),
        decreases j,
    {
        assert(text@.subrange(i as int, j as int).drop_last() =~= text@.subrange(
            i as int,
            j - 1,
        ));
        j = j - 1;
    }
    let ghost t = text@.subrange(i as int, j as int);
    assert(trim(text@) == t);
    if i == j {
        return Err(StoreError::Parse);
    }
    let mut acc: u64 = 0;
    let mut too_big = false;
    let mut k: usize = i;
    while k < j
        invariant
            i <= k <= j <= n == text@.len(),
            t == text@.subrange(i as int, j as int),
            trim(text@) == t,
            all_digits(text@.subrange(i as int, k as int)),
            !too_big ==> acc == decimal(text@.subrange(i as int, k as int)) && acc <= u32::MAX,
            too_big ==> decimal(text@.subrange(i as int, k as int)) > u32::MAX,
        decreases j - k,
    {
        let b = text[k];
        if b < 48 || b > 57 {
            assert(t[k - i] == b);
            assert(!all_digits(t));
            return Err(StoreError::Parse);
        }
        let ghost before = text@.subrange(i as int, k as int);
        let ghost after = text@.subrange(i as int, k + 1);
        assert(after.drop_last() =~= before);
        assert(decimal(after) == decimal(before) * 10 + (b - 48) as nat);
        if !too_big {
            acc = acc * 10 + (b - 48) as u64;
            if acc > 4294967295 {
                too_big = true;
            }
        } else {
            assert(decimal(before) * 10 + (b - 48) as nat > u32::MAX) by (nonlinear_arith)
                requires
                    decimal(before) > u32::MAX,
            ;
        }
        k = k + 1;
    }
    assert(text@.subrange(i as int, k as int) == t);
    if too_big {
        Err(StoreError::Parse)
    } else {
        Ok(acc as u32)
    }
}

/// Appends the decimal digits of `n` to `out`.
fn push_digits(n: u32, out: &mut Vec<u8>)
    ensures
        final(out)@ == old(out)@ + digits(n as nat),
    decreases n,
{
    if n >= 10 {
        push_digits(n / 10, out);
    }
    out.push((n % 10 + 48) as u8);
    proof {
        if n >= 10 {
            assert(final(out)@ =~= old(out)@ + digits(n as nat));
        } else {
            assert(final(out)@ =~= old(out)@ + digits(n as nat));
        }
    }
}

/// The text written to the store for the value `v`.
pub fn render_value(v: u32) -> (r: Vec<u8>)
    ensures
        r@ == store_text(v as nat),
{
    let mut out: Vec<u8> = Vec::new();
    push_digits(v, &mut out);
    out.push(10u8);
    assert(out@ =~= store_text(v as nat));
    out
}

/// The digits of `n` are one or more decimal digits that write `n`.
proof fn lemma_digits(n: nat)
    ensures
        digits(n).len() > 0,
        all_digits(digits(n)),
        decimal(digits(n)) == n,
    decreases n,
{
    if n >= 10 {
        lemma_digits(n / 10);
        let d = digits(n);
        assert(d.drop_last() =~= digits(n / 10));
        assert(d.last() == (n % 10 + 48) as u8);
        assert(decimal(d) == (n / 10) * 10 + n % 10);
        assert forall|i: int| 0 <= i < d.len() implies is_digit(#[trigger] d[i]) by {
            if i < d.len() - 1 {
                assert(d[i] == digits(n / 10)[i]);
            }
        }
    } else {
        assert(digits(n).drop_last() =~= Seq::<u8>::empty());
        assert(decimal(Seq::<u8>::empty()) == 0);
    }
}

/// Writing a value to the store and reading the store back gives the same
/// value.
pub proof fn lemma_store_round_trip(v: u32)
    ensures
        stored_value(store_text(v as nat)) == Some(v),
{
    let d = digits(v as nat);
    let s = store_text(v as nat);
    lemma_digits(v as nat);
    assert(is_digit(d[0]));
    assert(s[0] == d[0]);
    assert(trim_start(s) == s);
    assert(s.drop_last() =~= d);
    assert(is_digit(d.last()));
    assert(trim_end(d) == d);
    assert(trim(s) == d);
}

} // verus!
