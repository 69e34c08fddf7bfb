use vstd::prelude::*;

verus! {

/// The character that writes the decimal digit `d`.
pub open spec fn digit_char(d: nat) -> char {
    if d == 0 {
        '0'
    } else if d == 1 {
        '1'
    } else if d == 2 {
        '2'
    } else if d == 3 {
        '3'
    } else if d == 4 {
        '4'
    } else if d == 5 {
        '5'
    } else if d == 6 {
        '6'
    } else if d == 7 {
        '7'
    } else if d == 8 {
        '8'
    } else {
        '9'
    }
}

/// `n` written in decimal, without leading zeros.
pub open spec fn decimal(n: nat) -> Seq<char>
    decreases n,
{
    if n < 10 {
        seq![digit_char(n)]
    } else {
        decimal(n / 10).push(digit_char(n % 10))
    }
}

/// The id of a request: `prefix`, the timestamp in decimal, `_`, and the
/// number of requests of its kind made before it, in decimal.
pub open spec fn request_id(prefix: Seq<char>, timestamp: u64, n: nat) -> Seq<char> {
    prefix + decimal(timestamp as nat) + seq!['_'] + decimal(n)
}

/// The id of the bill payment created at `timestamp` after `n` others.
pub open spec fn bill_id(timestamp: u64, n: nat) -> Seq<char> {
    request_id("bill_"@, timestamp, n)
}

/// The id of the withdrawal created at `timestamp` after `n` others.
pub open spec fn withdrawal_id(timestamp: u64, n: nat) -> Seq<char> {
    request_id("withdraw_"@, timestamp, n)
}

pub proof fn lemma_decimal_digits(n: nat)
    ensures
        decimal(n).len() >= 1,
        n >= 10 ==> decimal(n).len() >= 2,
        forall|i: int| 0 <= i < decimal(n).len() ==> #[trigger] decimal(n)[i] != '_',
    decreases n,
{
    if n >= 10 {
        lemma_decimal_digits(n / 10);
        let d = decimal(n / 10);
        assert forall|i: int| 0 <= i < decimal(n).len() implies #[trigger] decimal(n)[i] != '_' by {
            if i < d.len() {
                assert(decimal(n)[i] == d[i]);
            }
        }
    }
}

pub proof fn lemma_decimal_injective(n: nat, m: nat)
    requires
        decimal(n) == decimal(m),
    ensures
        n == m,
    decreases n,
{
    lemma_decimal_digits(n);
    lemma_decimal_digits(m);
    if n >= 10 && m >= 10 {
        let dn = decimal(n);
        assert(dn.last() == digit_char(n % 10));
        assert(decimal(m).last() == digit_char(m % 10));
        assert(n % 10 == m % 10);
        assert(dn.drop_last() =~= decimal(n / 10));
        assert(decimal(m).drop_last() =~= decimal(m / 10));
        lemma_decimal_injective(n / 10, m / 10);
        assert(n == 10 * (n / 10) + n % 10) by (nonlinear_arith);
        assert(m == 10 * (m / 10) + m % 10) by (nonlinear_arith);
    } else if n < 10 && m < 10 {
        assert(decimal(n)[0] == digit_char(n));
        assert(decimal(m)[0] == digit_char(m));
    }
}

/// Splitting at the first `_`: `a` and `c` hold none.
proof fn lemma_split_at_separator(a: Seq<char>, b: Seq<char>, c: Seq<char>, d: Seq<char>)
    requires
        a + seq!['_'] + b == c + seq!['_'] + d,
        forall|i: int| 0 <= i < a.len() ==> #[trigger] a[i] != '_',
        forall|i: int| 0 <= i < c.len() ==> #[trigger] c[i] != '_',
    ensures
        a == c,
        b == d,
{
    let s = a + seq!['_'] + b;
    let t = c + seq!['_'] + d;
    if a.len() < c.len() {
        assert(s[a.len() as int] == '_');
        assert(t[a.len() as int] == c[a.len() as int]);
    }
    if c.len() < a.len() {
        assert(t[c.len() as int] == '_');
        assert(s[c.len() as int] == a[c.len() as int]);
    }
    assert(a =~= s.subrange(0, a.len() as int));
    assert(c =~= t.subrange(0, c.len() as int));
    assert(b =~= s.subrange(a.len() as int + 1, s.len() as int));
    assert(d =~= t.subrange(c.len() as int + 1, t.len() as int));
}

/// Requests with the same prefix and different numbers have different ids.
pub proof fn lemma_request_id_injective(p: Seq<char>, t1: u64, n1: nat, t2: u64, n2: nat)
    requires
        request_id(p, t1, n1) == request_id(p, t2, n2),
    ensures
        n1 == n2,
{
    let x = decimal(t1 as nat) + seq!['_'] + decimal(n1);
    let y = decimal(t2 as nat) + seq!['_'] + decimal(n2);
    assert(request_id(p, t1, n1) =~= p + x);
    assert(request_id(p, t2, n2) =~= p + y);
    assert(x =~= (p + x).subrange(p.len() as int, (p + x).len() as int));
    assert(y =~= (p + y).subrange(p.len() as int, (p + y).len() as int));
    lemma_decimal_digits(t1 as nat);
    lemma_decimal_digits(t2 as nat);
    lemma_split_at_separator(decimal(t1 as nat), decimal(n1), decimal(t2 as nat), decimal(n2));
    lemma_decimal_injective(n1, n2);
}

fn digit_str(d: u64) -> (r: &'static str)
    requires
        d < 10,
    ensures
        r@ == seq![digit_char(d as nat)],
{
    if d == 0 {
        proof { reveal_strlit("0"); }
        "0"
    } else if d == 1 {
        proof { reveal_strlit("1"); }
        "1"
    } else if d == 2 {
        proof { reveal_strlit("2"); }
        "2"
    } else if d == 3 {
        proof { reveal_strlit("3"); }
        "3"
    } else if d == 4 {
        proof { reveal_strlit("4"); }
        "4"
    } else if d == 5 {
        proof { reveal_strlit("5"); }
        "5"
    } else if d == 6 {
        proof { reveal_strlit("6"); }
        "6"
    } else if d == 7 {
        proof { reveal_strlit("7"); }
        "7"
    } else if d == 8 {
        proof { reveal_strlit("8"); }
        "8"
    } else {
        proof { reveal_strlit("9"); }
        "9"
    }
}

/// Appends the decimal digits of `n` to `s`.
pub fn append_decimal(s: &mut String, n: u64)
    ensures
        final(s)@ == old(s)@ + decimal(n as nat),
    decreases n,
{
    let ghost start = s@;
    if n >= 10 {
        append_decimal(s, n / 10);
    }
    s.append(digit_str(n % 10));
    proof {
        if n >= 10 {
            assert(start + decimal(n as nat) =~= start + decimal((n / 10) as nat) + seq![
                digit_char((n % 10) as nat),
            ]);
        } else {
            assert(start + decimal(n as nat) =~= start + seq![digit_char((n % 10) as nat)]);
        }
    }
}

/// Appends `_` and then the decimal digits of `n` to `s`.
fn append_number(s: &mut String, n: u64)
    ensures
        final(s)@ == old(s)@ + seq!['_'] + decimal(n as nat),
{
    proof {
        reveal_strlit("_");
    }
    s.append("_");
    append_decimal(s, n);
}

/// The id of the bill payment made at `timestamp` after `n` others.
pub fn make_bill_id(timestamp: u64, n: u64) -> (r: String)
    ensures
        r@ == bill_id(timestamp, n as nat),
{
    let mut s = String::from_str("bill_");
    append_decimal(&mut s, timestamp);
    append_number(&mut s, n);
    s
}

/// The id of the withdrawal made at `timestamp` after `n` others.
pub fn make_withdrawal_id(timestamp: u64, n: u64) -> (r: String)
    ensures
        r@ == withdrawal_id(timestamp, n as nat),
{
    let mut s = String::from_str("withdraw_");
    append_decimal(&mut s, timestamp);
    append_number(&mut s, n);
    s
}

} // verus!
