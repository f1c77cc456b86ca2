use vstd::prelude::*;

verus! {

/// Length of `s` once every trailing `c` is removed.
pub open spec fn trimmed_len(s: Seq<char>, c: char, n: int) -> int
    decreases n,
{
    if n > 0 && s[n - 1] == c {
        trimmed_len(s, c, n - 1)
    } else {
        n
    }
}

/// `s` without its trailing `/` characters.
pub open spec fn trim_trailing_slashes(s: Seq<char>) -> Seq<char> {
    s.subrange(0, trimmed_len(s, '/', s.len() as int))
}

/// Index of the last `c` among the first `n` characters, or -1.
pub open spec fn last_index_of(s: Seq<char>, c: char, n: int) -> int
    decreases n,
{
    if n <= 0 {
        -1
    } else if s[n - 1] == c {
        n - 1
    } else {
        last_index_of(s, c, n - 1)
    }
}

pub open spec fn ends_with_slash(s: Seq<char>) -> bool {
    s.len() > 0 && s[s.len() - 1] == '/'
}

/// Joins a relative path onto a base: an absolute `rel` replaces the base,
/// an empty base or a base ending in `/` takes `rel` directly, any other
/// base is followed by one `/`.
pub open spec fn join_path(base: Seq<char>, rel: Seq<char>) -> Seq<char> {
    if rel.len() > 0 && rel[0] == '/' {
        rel
    } else if base.len() == 0 || ends_with_slash(base) {
        base + rel
    } else {
        base + seq!['/'] + rel
    }
}

/// The last component of a path: what follows its last `/`.
pub open spec fn basename(p: Seq<char>) -> Seq<char> {
    p.subrange(last_index_of(p, '/', p.len() as int) + 1, p.len() as int)
}

proof fn lemma_trimmed_len_bounds(s: Seq<char>, c: char, n: int)
    requires
        0 <= n <= s.len(),
    ensures
        0 <= trimmed_len(s, c, n) <= n,
    decreases n,
{
    if n > 0 && s[n - 1] == c {
        lemma_trimmed_len_bounds(s, c, n - 1);
    }
}

proof fn lemma_last_index_bounds(s: Seq<char>, c: char, n: int)
    requires
        0 <= n <= s.len(),
    ensures
        -1 <= last_index_of(s, c, n) < n,
        last_index_of(s, c, n) >= 0 ==> s[last_index_of(s, c, n)] == c,
    decreases n,
{
    if n > 0 && s[n - 1] != c {
        lemma_last_index_bounds(s, c, n - 1);
    }
}

pub fn owned(s: &str) -> (r: String)
    ensures
        r@ == s@,
{
    String::from_str(s)
}

pub fn concat(a: &str, b: &str) -> (r: String)
    ensures
        r@ == a@ + b@,
{
    let mut r = String::from_str(a);
    r.append(b);
    r
}

pub fn same(a: &str, b: &str) -> (r: bool)
    ensures
        r == (a@ == b@),
{
    let n = a.unicode_len();
    if n != b.unicode_len() {
        return false;
    }
    let mut i: usize = 0;
    while i < n
        invariant
            n == a@.len(),
            n == b@.len(),
            i <= n,
            forall|k: int| 0 <= k < i ==> a@[k] == b@[k],
        decreases n - i,
    {
        if a.get_char(i) != b.get_char(i) {
            return false;
        }
        i = i + 1;
    }
    assert(a@ =~= b@);
    true
}

pub fn ends_with(s: &str, c: char) -> (r: bool)
    ensures
        r == (s@.len() > 0 && s@[s@.len() - 1] == c),
{
    let n = s.unicode_len();
    n > 0 && s.get_char(n - 1) == c
}

pub fn trim_end_slashes(s: &str) -> (r: String)
    ensures
        r@ == trim_trailing_slashes(s@),
{
    let n = s.unicode_len();
    let mut k: usize = n;
    while k > 0 && s.get_char(k - 1) == '/'
        invariant
            k <= n,
            n == s@.len(),
            trimmed_len(s@, '/', k as int) == trimmed_len(s@, '/', n as int),
        decreases k,
    {
        k = k - 1;
    }
    String::from_str(s.substring_char(0, k))
}

pub fn last_index(s: &str, c: char) -> (r: Option<usize>)
    ensures
        match r {
            Some(i) => i as int == last_index_of(s@, c, s@.len() as int),
            None => last_index_of(s@, c, s@.len() as int) == -1,
        },
        r matches Some(i) ==> i < s@.len() && s@[i as int] == c,
{
    let n = s.unicode_len();
    let mut k: usize = n;
    while k > 0
        invariant
            k <= n,
            n == s@.len(),
            last_index_of(s@, c, k as int) == last_index_of(s@, c, n as int),
        decreases k,
    {
        if s.get_char(k - 1) == c {
            return Some(k - 1);
        }
        k = k - 1;
    }
    None
}

pub fn join(base: &str, rel: &str) -> (r: String)
    ensures
        r@ == join_path(base@, rel@),
{
    if rel.unicode_len() > 0 && rel.get_char(0) == '/' {
        String::from_str(rel)
    } else if base.unicode_len() == 0 || ends_with(base, '/') {
        concat(base, rel)
    } else {
        let mut r = String::from_str(base);
        r.append("/");
        r.append(rel);
        proof {
            reveal_strlit("/");
        }
        assert(r@ =~= base@ + seq!['/'] + rel@);
        r
    }
}

pub fn file_name(p: &str) -> (r: String)
    ensures
        r@ == basename(p@),
{
    let n = p.unicode_len();
    proof {
        lemma_last_index_bounds(p@, '/', n as int);
    }
    match last_index(p, '/') {
        Some(i) => String::from_str(p.substring_char(i + 1, n)),
        None => String::from_str(p.substring_char(0, n)),
    }
}

pub open spec fn digit_char(d: nat) -> char {
    if d == 0 { '0' } else if d == 1 { '1' } else if d == 2 { '2' } else if d == 3 { '3' }
    else if d == 4 { '4' } else if d == 5 { '5' } else if d == 6 { '6' } else if d == 7 { '7' }
    else if d == 8 { '8' } else { '9' }
}

/// The digits of `n` in the given base (at most ten), most significant first.
pub open spec fn radix_digits(n: nat, base: nat) -> Seq<char>
    decreases n
        via radix_digits_decreases

{
    if base < 2 || n < base {
        seq![digit_char(n)]
    } else {
        radix_digits(n / base, base) + seq![digit_char(n % base)]
    }
}

#[via_fn]
proof fn radix_digits_decreases(n: nat, base: nat) {
    if !(base < 2 || n < base) {
        assert(n / base < n) by (nonlinear_arith)
            requires
                base >= 2,
                n >= base,
        ;
    }
}

pub open spec fn reversed_digits(ds: Seq<u64>) -> Seq<char> {
    Seq::new(ds.len(), |j: int| digit_char(ds[ds.len() - 1 - j] as nat))
}

fn digit_str(d: u64) -> (r: &'static str)
    requires
        d < 10,
    ensures
        r@ == seq![digit_char(d as nat)],
{
    proof {
        reveal_strlit("0");
        reveal_strlit("1");
        reveal_strlit("2");
        reveal_strlit("3");
        reveal_strlit("4");
        reveal_strlit("5");
        reveal_strlit("6");
        reveal_strlit("7");
        reveal_strlit("8");
        reveal_strlit("9");
    }
    match d {
        0 => "0",
        1 => "1",
        2 => "2",
        3 => "3",
        4 => "4",
        5 => "5",
        6 => "6",
        7 => "7",
        8 => "8",
        _ => "9",
    }
}

/// `n` written in the given base.
pub fn radix(n: u64, base: u64) -> (r: String)
    requires
        2 <= base <= 10,
    ensures
        r@ == radix_digits(n as nat, base as nat),
{
    let mut ds: Vec<u64> = Vec::new();
    let mut m: u64 = n;
    while m >= base
        invariant
            2 <= base <= 10,
            forall|k: int| 0 <= k < ds@.len() ==> ds@[k] < base,
            radix_digits(n as nat, base as nat) == radix_digits(m as nat, base as nat) + reversed_digits(ds@),
        decreases m,
    {
        let ghost old_ds = ds@;
        ds.push(m % base);
        proof {
            assert(reversed_digits(ds@) =~= seq![digit_char((m % base) as nat)] + reversed_digits(old_ds));
            assert(radix_digits(m as nat, base as nat) == radix_digits((m / base) as nat, base as nat) + seq![digit_char((m % base) as nat)]);
            assert(radix_digits(n as nat, base as nat) =~= radix_digits((m / base) as nat, base as nat) + reversed_digits(ds@));
        }
        m = m / base;
    }
    let mut r = String::from_str(digit_str(m));
    let mut i: usize = ds.len();
    while i > 0
        invariant
            i <= ds@.len(),
            2 <= base <= 10,
            forall|k: int| 0 <= k < ds@.len() ==> ds@[k] < base,
            radix_digits(n as nat, base as nat) == seq![digit_char(m as nat)] + reversed_digits(ds@),
            r@ == seq![digit_char(m as nat)] + reversed_digits(ds@).subrange(0, ds@.len() - i),
        decreases i,
    {
        let d = digit_str(ds[i - 1]);
        r.append(d);
        i = i - 1;
        assert(r@ =~= seq![digit_char(m as nat)] + reversed_digits(ds@).subrange(0, ds@.len() - i));
    }
    assert(reversed_digits(ds@).subrange(0, ds@.len() as int) =~= reversed_digits(ds@));
    r
}

} // verus!
