use vstd::prelude::*;

verus! {

/// Appends one character (`String::push`).
#[verifier::external_body]
pub(crate) fn push_char(s: &mut String, c: char)
    ensures
        final(s)@ == old(s)@.push(c),
{
    s.push(c);
}

/// The decimal digits of `n`, most significant first.
pub open spec fn decimal_text(n: nat) -> Seq<char>
    decreases n,
{
    if n < 10 {
        seq![((n as int) + '0' as int) as char]
    } else {
        decimal_text(n / 10) + seq![((n % 10) as int + '0' as int) as char]
    }
}

/// Writes `n` in decimal.
pub fn u64_to_text(n: u64) -> (r: String)
    ensures
        r@ == decimal_text(n as nat),
    decreases n,
{
    if n < 10 {
        let mut s = String::new();
        push_char(&mut s, ((n as u8) + 48u8) as char);
        proof {
            assert(s@ =~= decimal_text(n as nat));
        }
        s
    } else {
        let mut s = u64_to_text(n / 10);
        push_char(&mut s, (((n % 10) as u8) + 48u8) as char);
        proof {
            assert(s@ =~= decimal_text(n as nat));
        }
        s
    }
}

/// Writes `n` in decimal, with a leading `-` when negative.
pub fn i64_to_text(n: i64) -> (r: String)
    ensures
        r@ == (if n < 0 { seq!['-'] + decimal_text((-(n as int)) as nat) } else { decimal_text(n as nat) }),
{
    if n < 0 {
        let mut s = String::new();
        push_char(&mut s, '-');
        let m: u64 = if n == i64::MIN { 0x8000_0000_0000_0000u64 } else { (-n) as u64 };
        let t = u64_to_text(m);
        s.append(t.as_str());
        proof {
            assert(s@ =~= seq!['-'] + decimal_text((-(n as int)) as nat));
        }
        s
    } else {
        u64_to_text(n as u64)
    }
}

/// The characters of a string slice.
pub fn chars_of(s: &str) -> (r: Vec<char>)
    ensures
        r@ == s@,
{
    let n = s.unicode_len();
    let mut v: Vec<char> = Vec::new();
    let mut i: usize = 0;
    while i < n
        invariant
            i <= n,
            n == s@.len(),
            v@ == s@.subrange(0, i as int),
        decreases n - i,
    {
        v.push(s.get_char(i));
        proof {
            assert(v@ =~= s@.subrange(0, i as int + 1));
        }
        i = i + 1;
    }
    proof {
        assert(v@ =~= s@);
    }
    v
}

} // verus!
