use vstd::prelude::*;

verus! {

pub open spec fn is_digit(b: u8) -> bool {
    48 <= b && b <= 57
}

/// The value of a string of decimal digits.
pub open spec fn digits_value(s: Seq<u8>) -> nat
    decreases s.len(),
{
    if s.len() == 0 {
        0
    } else {
        digits_value(s.drop_last()) * 10 + (s.last() - 48) as nat
    }
}

/// The part of a command tag after its last space (the whole tag if it has none).
pub open spec fn last_word(tag: Seq<u8>) -> Seq<u8>
    decreases tag.len(),
{
    if tag.len() == 0 {
        tag
    } else if tag.last() == 32u8 {
        Seq::empty()
    } else {
        last_word(tag.drop_last()).push(tag.last())
    }
}

/// A decimal number as `u64` parsing reads it: an optional `+`, then at
/// least one digit, with a value that fits in 64 bits.
pub open spec fn parse_u64(w: Seq<u8>) -> Option<u64> {
    parse_digits(if w.len() > 0 && w[0] == 43u8 { w.drop_first() } else { w })
}

/// A non-empty string of digits whose value fits in 64 bits, read as a number.
pub open spec fn parse_digits(d: Seq<u8>) -> Option<u64> {
    if d.len() > 0 && (forall|i: int| 0 <= i < d.len() ==> is_digit(#[trigger] d[i]))
        && digits_value(d) <= u64::MAX {
        Some(digits_value(d) as u64)
    } else {
        None
    }
}

/// The affected-row count that a command tag reports: its last word read as a
/// number, or zero where that word is not one.
pub open spec fn affected_of(tag: Seq<u8>) -> u64 {
    match parse_u64(last_word(tag)) {
        Some(n) => n,
        None => 0,
    }
}

/// Start of the last word of `tag`.
fn last_word_start(tag: &Vec<u8>) -> (r: usize)
    ensures
        r <= tag@.len(),
        tag@.subrange(r as int, tag@.len() as int) == last_word(tag@),
{
    let mut i: usize = tag.len();
    proof {
        assert(tag@.subrange(0, i as int) == tag@);
        assert(last_word(tag@) == last_word(tag@) + tag@.subrange(i as int, tag@.len() as int));
    }
    while i > 0 && tag[i - 1] != 32u8
        invariant
            i <= tag@.len(),
            last_word(tag@) == last_word(tag@.subrange(0, i as int)) + tag@.subrange(i as int, tag@.len() as int),
        decreases i,
    {
        proof {
            let t = tag@.subrange(0, i as int);
            assert(t.drop_last() == tag@.subrange(0, i - 1));
            assert(tag@.subrange(i - 1, tag@.len() as int) == seq![t.last()] + tag@.subrange(i as int, tag@.len() as int));
        }
        i = i - 1;
    }
    proof {
        let t = tag@.subrange(0, i as int);
        if i > 0 {
            assert(t.last() == 32u8);
        }
        assert(last_word(t) =~= Seq::empty());
        assert(last_word(tag@) =~= tag@.subrange(i as int, tag@.len() as int));
    }
    i
}

/// Reads the affected-row count out of a CommandComplete tag such as
/// `UPDATE 3` or `INSERT 0 5`.
pub fn affected_rows(tag: &Vec<u8>) -> (r: u64)
    ensures
        r == affected_of(tag@),
{
    let start = last_word_start(tag);
    let ghost w = tag@.subrange(start as int, tag@.len() as int);
    let mut i: usize = start;
    if i < tag.len() && tag[i] == 43u8 {
        i = i + 1;
    }
    let ghost d = tag@.subrange(i as int, tag@.len() as int);
    proof {
        if w.len() > 0 && w[0] == 43u8 {
            assert(d =~= w.drop_first());
        } else {
            assert(d =~= w);
        }
    }
    assert(parse_u64(w) == parse_digits(d));
    if i == tag.len() {
        return 0;
    }
    let first = i;
    let mut acc: u64 = 0;
    while i < tag.len()
        invariant
            first <= i <= tag@.len(),
            first < tag@.len(),
            d == tag@.subrange(first as int, tag@.len() as int),
            acc as nat == digits_value(tag@.subrange(first as int, i as int)),
            forall|j: int| first <= j < i ==> is_digit(#[trigger] tag@[j]),
            w == last_word(tag@),
            parse_u64(w) == parse_digits(d),
        decreases tag@.len() - i,
    {
        let b = tag[i];
        if b < 48u8 || b > 57u8 {
            proof {
                assert(!is_digit(d[i - first]));
            }
            return 0;
        }
        let ghost pre = tag@.subrange(first as int, i as int);
        let ghost next = tag@.subrange(first as int, i + 1);
        proof {
            assert(next.drop_last() == pre);
            assert(digits_value(next) == digits_value(pre) * 10 + (b - 48) as nat);
        }
        if acc > 1844674407370955161u64 || (acc == 1844674407370955161u64 && b > 53u8) {
            proof {
                lemma_digits_grow(d, i + 1 - first);
                assert(d.subrange(0, i + 1 - first) == next);
                let a = acc as int;
                let c = (b - 48) as int;
                assert(a * 10 + c > u64::MAX) by (nonlinear_arith)
                    requires a > 1844674407370955161 || (a == 1844674407370955161 && c > 5), c >= 0;
            }
            return 0;
        }
        acc = acc * 10 + (b - 48u8) as u64;
        i = i + 1;
    }
    proof {
        assert(tag@.subrange(first as int, i as int) == d);
        assert forall|j: int| 0 <= j < d.len() implies is_digit(#[trigger] d[j]) by {
            assert(d[j] == tag@[first + j]);
        }
    }
    acc
}

/// A prefix's value bounds the whole's from below.
proof fn lemma_digits_grow(d: Seq<u8>, n: int)
    requires
        0 <= n <= d.len(),
    ensures
        digits_value(d.subrange(0, n)) <= digits_value(d),
    decreases d.len() - n,
{
    if n < d.len() {
        lemma_digits_grow(d, n + 1);
        let a = d.subrange(0, n);
        let b = d.subrange(0, n + 1);
        assert(b.drop_last() == a);
        assert(digits_value(b) == digits_value(a) * 10 + (b.last() - 48) as nat);
    } else {
        assert(d.subrange(0, n) == d);
    }
}

/// The decimal digits of `n`, without leading zeros.
pub open spec fn decimal(n: nat) -> Seq<u8>
    decreases n,
{
    if n < 10 {
        seq![(48 + n) as u8]
    } else {
        decimal(n / 10).push((48 + n % 10) as u8)
    }
}

proof fn lemma_decimal(n: nat)
    ensures
        decimal(n).len() > 0,
        forall|i: int| 0 <= i < decimal(n).len() ==> is_digit(#[trigger] decimal(n)[i]),
        digits_value(decimal(n)) == n,
    decreases n,
{
    if n >= 10 {
        lemma_decimal(n / 10);
        let d = decimal(n);
        assert(d.drop_last() == decimal(n / 10));
        assert(n % 10 < 10);
        assert(d.last() == (48 + n % 10) as u8);
        assert((d.last() - 48) as nat == n % 10);
        assert(digits_value(d) == digits_value(decimal(n / 10)) * 10 + n % 10);
        assert(n == (n / 10) * 10 + n % 10);
    } else {
        let d = decimal(n);
        assert(d.drop_last() =~= Seq::<u8>::empty());
        assert(d.last() == (48 + n) as u8);
        assert(digits_value(d) == digits_value(d.drop_last()) * 10 + (d.last() - 48) as nat);
    }
}

proof fn lemma_last_word_after_space(head: Seq<u8>, w: Seq<u8>)
    requires
        forall|i: int| 0 <= i < w.len() ==> is_digit(#[trigger] w[i]),
    ensures
        last_word(head.push(32u8) + w) == w,
    decreases w.len(),
{
    let t = head.push(32u8) + w;
    if w.len() == 0 {
        assert(t == head.push(32u8));
    } else {
        assert(is_digit(w[w.len() - 1]));
        assert(t.drop_last() == head.push(32u8) + w.drop_last());
        lemma_last_word_after_space(head, w.drop_last());
        assert(w.drop_last().push(w.last()) == w);
    }
}

/// A command tag that ends in a space and the decimal digits of `n`, such as
/// `UPDATE 4` or `INSERT 0 4`, reports `n` affected rows.
pub proof fn lemma_tag_count(command: Seq<u8>, n: u64)
    ensures
        affected_of(command.push(32u8) + decimal(n as nat)) == n,
{
    let d = decimal(n as nat);
    lemma_decimal(n as nat);
    lemma_last_word_after_space(command, d);
    assert(d[0] != 43u8) by {
        assert(is_digit(d[0]));
    }
}

} // verus!
