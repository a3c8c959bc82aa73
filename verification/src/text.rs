//! Small string helpers with exact contracts.
use vstd::prelude::*;

verus! {

/// Whether two string slices hold the same characters.
pub fn str_eq(a: &str, b: &str) -> (r: bool)
    ensures
        r == (a@ == b@),
{
    a.to_owned() == b.to_owned()
}

/// The concatenation of two string slices.
pub fn concat(a: &str, b: &str) -> (r: String)
    ensures
        r@ == a@ + b@,
{
    let mut s = a.to_owned();
    s.append(b);
    s
}

/// Whether `list` holds a string equal to `s`.
pub fn contains_str(list: &Vec<String>, s: &str) -> (r: bool)
    ensures
        r == exists|i: int| 0 <= i < list@.len() && #[trigger] list@[i]@ == s@,
{
    let mut i: usize = 0;
    while i < list.len()
        invariant
            i <= list@.len(),
            forall|j: int| 0 <= j < i ==> #[trigger] list@[j]@ != s@,
        decreases list@.len() - i,
    {
        if str_eq(list[i].as_str(), s) {
            return true;
        }
        i = i + 1;
    }
    false
}

/// Whether `c` is an ASCII decimal digit.
pub open spec fn is_digit(c: char) -> bool {
    '0' <= c && c <= '9'
}

/// The value of a decimal digit.
pub open spec fn digit_value(c: char) -> int {
    c as int - '0' as int
}

/// The character of a digit value (`0 <= d < 10`).
pub open spec fn digit_char(d: int) -> char {
    ('0' as int + d) as char
}

/// Every character is a decimal digit.
pub open spec fn all_digits(s: Seq<char>) -> bool {
    forall|i: int| 0 <= i < s.len() ==> is_digit(#[trigger] s[i])
}

/// The value of a sequence of decimal digits, most significant first.
pub open spec fn digits_value(s: Seq<char>) -> int
    decreases s.len(),
{
    if s.len() == 0 {
        0
    } else {
        digits_value(s.drop_last()) * 10 + digit_value(s.last())
    }
}

/// The length of a leading sign, `+` or `-`.
pub open spec fn sign_len(s: Seq<char>) -> int {
    if s.len() > 0 && (s[0] == '-' || s[0] == '+') {
        1
    } else {
        0
    }
}

/// What parsing a text as an `i32` gives (the grammar of `str::parse::<i32>`):
/// an optional sign, then one or more decimal digits, the value in range.
pub open spec fn parse_decimal(s: Seq<char>) -> Option<int> {
    let body = s.skip(sign_len(s));
    if body.len() == 0 || !all_digits(body) {
        None
    } else {
        let v = if s[0] == '-' {
            -digits_value(body)
        } else {
            digits_value(body)
        };
        if i32::MIN <= v && v <= i32::MAX {
            Some(v)
        } else {
            None
        }
    }
}

/// The decimal digits of a natural number, most significant first, without
/// leading zeros.
pub open spec fn digits_text(n: nat) -> Seq<char>
    decreases n,
{
    if n < 10 {
        seq![digit_char(n as int)]
    } else {
        digits_text(n / 10).push(digit_char((n % 10) as int))
    }
}

/// The decimal text of an integer, with a `-` when it is negative.
pub open spec fn decimal_text(v: int) -> Seq<char> {
    if v < 0 {
        seq!['-'] + digits_text((-v) as nat)
    } else {
        digits_text(v as nat)
    }
}

/// Parses a text as an `i32`: an optional sign followed by decimal digits,
/// nothing else, the value in range.
pub fn parse_i32(s: &str) -> (r: Option<i32>)
    ensures
        match parse_decimal(s@) {
            Some(v) => r == Some(v as i32),
            None => r is None,
        },
{
    let n = s.unicode_len();
    if n == 0 {
        assert(s@.skip(sign_len(s@)).len() == 0);
        return None;
    }
    let c0 = s.get_char(0);
    let start: usize = if c0 == '-' || c0 == '+' { 1 } else { 0 };
    let negative = c0 == '-';
    assert(start == sign_len(s@));
    let ghost body = s@.skip(start as int);
    if start == n {
        assert(body.len() == 0);
        return None;
    }
    let cap: i64 = 2147483649;
    let mut acc: i64 = 0;
    let mut i: usize = start;
    while i < n
        invariant
            start <= i <= n,
            n == s@.len(),
            start == sign_len(s@),
            body == s@.skip(start as int),
            cap == 2147483649,
            all_digits(s@.subrange(start as int, i as int)),
            digits_value(s@.subrange(start as int, i as int)) >= 0,
            acc == if digits_value(s@.subrange(start as int, i as int)) >= cap {
                cap as int
            } else {
                digits_value(s@.subrange(start as int, i as int))
            },
        decreases n - i,
    {
        let c = s.get_char(i);
        let ghost pre = s@.subrange(start as int, i as int);
        let ghost post = s@.subrange(start as int, i + 1);
        assert(post.drop_last() =~= pre);
        assert(post.last() == c);
        if !('0' <= c && c <= '9') {
            assert(body[i - start] == c);
            return None;
        }
        let d = (c as u32 - '0' as u32) as i64;
        assert(digits_value(post) == digits_value(pre) * 10 + d);
        if acc < cap {
            let next = acc * 10 + d;
            acc = if next >= cap { cap } else { next };
        }
        assert forall|j: int| 0 <= j < post.len() implies is_digit(#[trigger] post[j]) by {
            if j < pre.len() {
                assert(post[j] == pre[j]);
            }
        }
        i = i + 1;
    }
    assert(s@.subrange(start as int, n as int) =~= body);
    let v: i64 = if negative { -acc } else { acc };
    if v < -2147483648 || v > 2147483647 {
        None
    } else {
        Some(v as i32)
    }
}

/// The digit character of a single decimal digit value.
fn digit_str(d: u32) -> (r: &'static str)
    requires
        d < 10,
    ensures
        r@ == seq![digit_char(d as int)],
{
    match d {
        0 => {
            proof {
                reveal_strlit("0");
            }
            "0"
        },
        1 => {
            proof {
                reveal_strlit("1");
            }
            "1"
        },
        2 => {
            proof {
                reveal_strlit("2");
            }
            "2"
        },
        3 => {
            proof {
                reveal_strlit("3");
            }
            "3"
        },
        4 => {
            proof {
                reveal_strlit("4");
            }
            "4"
        },
        5 => {
            proof {
                reveal_strlit("5");
            }
            "5"
        },
        6 => {
            proof {
                reveal_strlit("6");
            }
            "6"
        },
        7 => {
            proof {
                reveal_strlit("7");
            }
            "7"
        },
        8 => {
            proof {
                reveal_strlit("8");
            }
            "8"
        },
        _ => {
            proof {
                reveal_strlit("9");
            }
            "9"
        },
    }
}

/// The decimal text of an `i32`, as `Display` writes it.
pub fn decimal_of(v: i32) -> (r: String)
    ensures
        r@ == decimal_text(v as int),
{
    let negative = v < 0;
    let mut m: u32 = if negative { (-(v as i64)) as u32 } else { v as u32 };
    let ghost m0 = m as nat;
    let mut acc = String::new();
    while m >= 10
        invariant
            digits_text(m0) == digits_text(m as nat) + acc@,
        decreases m,
    {
        let ghost before = acc@;
        let d = digit_str(m % 10);
        acc = concat(d, acc.as_str());
        proof {
            assert(digits_text(m as nat) == digits_text((m / 10) as nat).push(digit_char((m % 10) as int)));
            assert(digits_text(m as nat) + before =~= digits_text((m / 10) as nat) + acc@);
        }
        m = m / 10;
    }
    let d = digit_str(m);
    let digits = concat(d, acc.as_str());
    assert(digits@ =~= digits_text(m0));
    if negative {
        proof {
            reveal_strlit("-");
        }
        concat("-", digits.as_str())
    } else {
        digits
    }
}

proof fn lemma_digits_text(n: nat)
    ensures
        digits_text(n).len() >= 1,
        all_digits(digits_text(n)),
        digits_value(digits_text(n)) == n,
    decreases n,
{
    let t = digits_text(n);
    if n < 10 {
        assert(digit_value(digit_char(n as int)) == n);
        assert(t.drop_last() =~= Seq::<char>::empty());
        assert(digits_value(t) == digits_value(t.drop_last()) * 10 + digit_value(t.last()));
    } else {
        lemma_digits_text(n / 10);
        assert(digit_value(digit_char((n % 10) as int)) == n % 10);
        assert(t.drop_last() =~= digits_text(n / 10));
        assert forall|i: int| 0 <= i < t.len() implies is_digit(#[trigger] t[i]) by {
            if i < t.len() - 1 {
                assert(t[i] == digits_text(n / 10)[i]);
            }
        }
    }
}

/// A number's decimal text parses back to the number.
pub proof fn law_decimal_round_trip(v: int)
    requires
        i32::MIN <= v <= i32::MAX,
    ensures
        parse_decimal(decimal_text(v)) == Some(v),
{
    if v < 0 {
        let m = (-v) as nat;
        lemma_digits_text(m);
        let s = decimal_text(v);
        assert(s[0] == '-');
        assert(s.skip(1) =~= digits_text(m));
    } else {
        lemma_digits_text(v as nat);
        let s = decimal_text(v);
        assert(s.skip(0) =~= s);
        assert(is_digit(s[0]));
    }
}

} // verus!
