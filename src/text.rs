use vstd::prelude::*;

verus! {

/// Whether `sub` occurs in `s` at position `i`.
pub open spec fn occurs_at(s: Seq<char>, sub: Seq<char>, i: int) -> bool {
    0 <= i && i + sub.len() <= s.len() && s.subrange(i, i + sub.len()) == sub
}

/// Whether `sub` occurs somewhere in `s`.
pub open spec fn has_substring(s: Seq<char>, sub: Seq<char>) -> bool {
    exists|i: int| occurs_at(s, sub, i)
}

/// Whether `s` ends with `suffix`.
pub open spec fn has_suffix(s: Seq<char>, suffix: Seq<char>) -> bool {
    suffix.len() <= s.len() && s.subrange(s.len() - suffix.len(), s.len() as int) == suffix
}

/// The characters of a string.
pub fn chars_of(s: &str) -> (r: Vec<char>)
    ensures
        r@ == s@,
{
    let n = s.unicode_len();
    let mut r: Vec<char> = Vec::new();
    let mut i: usize = 0;
    while i < n
        invariant
            n == s@.len(),
            i <= n,
            r@ == s@.subrange(0, i as int),
        decreases n - i,
    {
        r.push(s.get_char(i));
        i += 1;
        assert(r@ =~= s@.subrange(0, i as int));
    }
    assert(s@.subrange(0, n as int) =~= s@);
    r
}

/// Whether `sub` occurs in `s` at position `i`.
fn matches_at(s: &Vec<char>, sub: &Vec<char>, i: usize) -> (r: bool)
    requires
        i + sub@.len() <= s@.len(),
    ensures
        r == occurs_at(s@, sub@, i as int),
{
    let n = s.len();
    let mut k: usize = 0;
    while k < sub.len()
        invariant
            n == s@.len(),
            i + sub@.len() <= s@.len(),
            k <= sub@.len(),
            forall|j: int| 0 <= j < k ==> s@[i + j] == sub@[j],
        decreases sub@.len() - k,
    {
        if s[i + k] != sub[k] {
            assert(s@.subrange(i as int, i + sub@.len())[k as int] != sub@[k as int]);
            return false;
        }
        k += 1;
    }
    assert(s@.subrange(i as int, i + sub@.len()) =~= sub@);
    true
}

/// Whether `sub` occurs somewhere in `s`.
pub fn contains(s: &Vec<char>, sub: &Vec<char>) -> (r: bool)
    ensures
        r == has_substring(s@, sub@),
{
    if sub.len() > s.len() {
        return false;
    }
    if sub.len() == 0 {
        assert(s@.subrange(0, 0) =~= sub@);
        assert(occurs_at(s@, sub@, 0));
        return true;
    }
    let n = s.len();
    let last = n - sub.len();
    let mut i: usize = 0;
    while i <= last
        invariant
            n == s@.len(),
            last + sub@.len() == s@.len(),
            sub@.len() > 0,
            i <= last + 1,
            forall|j: int| 0 <= j < i ==> !occurs_at(s@, sub@, j),
        decreases last + 1 - i,
    {
        if matches_at(s, sub, i) {
            return true;
        }
        i += 1;
    }
    false
}

/// Whether `s` ends with `suffix`.
pub fn ends_with(s: &Vec<char>, suffix: &Vec<char>) -> (r: bool)
    ensures
        r == has_suffix(s@, suffix@),
{
    if suffix.len() > s.len() {
        return false;
    }
    let start = s.len() - suffix.len();
    let r = matches_at(s, suffix, start);
    assert(start + suffix@.len() == s@.len());
    r
}

/// Whether the last segment of a path, what follows its last `/`, holds a
/// `.`: whether the path names a file with an extension.
pub open spec fn has_extension(s: Seq<char>) -> bool {
    exists|i: int|
        0 <= i < s.len() && s[i] == '.' && forall|j: int| i < j < s.len() ==> s[j] != '/'
}

/// Whether the last segment of a path holds a `.`.
pub fn extension_present(s: &Vec<char>) -> (r: bool)
    ensures
        r == has_extension(s@),
{
    let mut i: usize = s.len();
    while i > 0
        invariant
            i <= s@.len(),
            forall|j: int| i <= j < s@.len() ==> s@[j] != '/' && s@[j] != '.',
        decreases i,
    {
        let c = s[i - 1];
        if c == '.' {
            assert(forall|j: int| i - 1 < j < s@.len() ==> s@[j] != '/');
            return true;
        }
        if c == '/' {
            assert forall|k: int|
                !(0 <= k < s@.len() && s@[k] == '.' && forall|j: int|
                    k < j < s@.len() ==> s@[j] != '/') by {
                if 0 <= k < s@.len() && s@[k] == '.' {
                    assert(k < i - 1);
                    assert(s@[i - 1] == '/');
                }
            }
            return false;
        }
        i -= 1;
    }
    false
}

/// The decimal digits of `n`, without leading zeros.
pub open spec fn decimal(n: nat) -> Seq<char>
    decreases n,
{
    if n < 10 {
        seq![digit_char(n)]
    } else {
        decimal(n / 10) + seq![digit_char(n % 10)]
    }
}

/// The character of a decimal digit.
pub open spec fn digit_char(d: nat) -> char {
    if d == 0 {
        '0'
    } else if d == 1 {
        '1'
    } else if d == 2 {
        '2'
    } else if d == 3 {
        '3'
    } else if d == 4 {
        '4'
    } else if d == 5 {
        '5'
    } else if d == 6 {
        '6'
    } else if d == 7 {
        '7'
    } else if d == 8 {
        '8'
    } else {
        '9'
    }
}

/// Appends the character of decimal digit `d`.
fn push_digit(r: &mut String, d: usize)
    requires
        d < 10,
    ensures
        final(r)@ == old(r)@ + seq![digit_char(d as nat)],
{
    if d == 0 {
        proof {
            reveal_strlit("0");
        }
        r.append("0");
    } else if d == 1 {
        proof {
            reveal_strlit("1");
        }
        r.append("1");
    } else if d == 2 {
        proof {
            reveal_strlit("2");
        }
        r.append("2");
    } else if d == 3 {
        proof {
            reveal_strlit("3");
        }
        r.append("3");
    } else if d == 4 {
        proof {
            reveal_strlit("4");
        }
        r.append("4");
    } else if d == 5 {
        proof {
            reveal_strlit("5");
        }
        r.append("5");
    } else if d == 6 {
        proof {
            reveal_strlit("6");
        }
        r.append("6");
    } else if d == 7 {
        proof {
            reveal_strlit("7");
        }
        r.append("7");
    } else if d == 8 {
        proof {
            reveal_strlit("8");
        }
        r.append("8");
    } else {
        proof {
            reveal_strlit("9");
        }
        r.append("9");
    }
    assert(final(r)@ =~= old(r)@ + seq![digit_char(d as nat)]);
}

/// The decimal digits of `n`, without leading zeros.
pub fn decimal_string(n: usize) -> (r: String)
    ensures
        r@ == decimal(n as nat),
    decreases n,
{
    if n < 10 {
        let mut r = String::new();
        push_digit(&mut r, n);
        assert(r@ =~= seq![digit_char(n as nat)]);
        r
    } else {
        let mut r = decimal_string(n / 10);
        push_digit(&mut r, n % 10);
        r
    }
}

} // verus!
