//! Character-level string utilities shared by the overlay store, the
//! fragment extractor and the reference resolver: substring search,
//! pattern removal, leading-separator trimming, directory prefixes,
//! decimal rendering, and the case-folding boundary.
use vstd::prelude::*;

verus! {

/// True when `pat` occurs in `s` starting exactly at position `i`.
pub open spec fn matches_at(s: Seq<char>, pat: Seq<char>, i: int) -> bool {
    0 <= i && i + pat.len() <= s.len() && s.subrange(i, i + pat.len()) == pat
}

/// True when `pat` occurs somewhere in `s`.
pub open spec fn has_sub(s: Seq<char>, pat: Seq<char>) -> bool {
    exists|i: int| matches_at(s, pat, i)
}

/// `s` with every occurrence of `pat` removed, scanning left to right
/// over non-overlapping occurrences.
pub open spec fn remove_all(s: Seq<char>, pat: Seq<char>) -> Seq<char>
    decreases s.len(),
{
    if pat.len() == 0 || s.len() < pat.len() {
        s
    } else if s.subrange(0, pat.len() as int) == pat {
        remove_all(s.skip(pat.len() as int), pat)
    } else {
        seq![s[0]] + remove_all(s.skip(1), pat)
    }
}

/// `s` with every leading `/` removed.
pub open spec fn trim_slashes(s: Seq<char>) -> Seq<char>
    decreases s.len(),
{
    if s.len() > 0 && s[0] == '/' {
        trim_slashes(s.skip(1))
    } else {
        s
    }
}

/// The prefix of `s` up to (not including) its last `/`; empty when
/// `s` holds no `/`.
pub open spec fn dir_of(s: Seq<char>) -> Seq<char>
    decreases s.len(),
{
    if s.len() == 0 {
        Seq::empty()
    } else if s[s.len() - 1] == '/' {
        s.drop_last()
    } else {
        dir_of(s.drop_last())
    }
}

/// What `str::to_lowercase` returns: Unicode case folding, a function
/// of the characters alone.
pub uninterp spec fn lower_of(s: Seq<char>) -> Seq<char>;

/// Relies on str::to_lowercase: the result depends on the characters
/// alone, and an empty string stays empty.
#[verifier::external_body]
pub fn to_lower(s: &str) -> (r: String)
    ensures
        r@ == lower_of(s@),
        s@.len() == 0 ==> r@.len() == 0,
{
    s.to_lowercase()
}

/// Relies on String::push: appends one character.
#[verifier::external_body]
pub fn push_char(s: &mut String, c: char)
    ensures
        final(s)@ == old(s)@.push(c),
{
    s.push(c)
}

/// Relies on String::from_iter (through Iterator::collect): builds the
/// string holding exactly the given characters in order.
#[verifier::external_body]
pub fn string_of(v: &[char]) -> (r: String)
    ensures
        r@ == v@,
{
    v.iter().collect()
}

/// One character of `s` per vector element, in order.
pub fn chars_of(s: &str) -> (v: Vec<char>)
    ensures
        v@ == s@,
{
    let n: usize = s.unicode_len();
    let mut v: Vec<char> = Vec::new();
    let mut i: usize = 0;
    while i < n
        invariant
            n == s@.len(),
            i <= n,
            v@ == s@.subrange(0, i as int),
        decreases n - i,
    {
        v.push(s.get_char(i));
        i += 1;
        proof {
            assert(v@ =~= s@.subrange(0, i as int));
        }
    }
    proof {
        assert(v@ =~= s@);
    }
    v
}

/// Whether `pat` matches in `v` at position `i`.
pub fn match_at(v: &Vec<char>, pat: &Vec<char>, i: usize) -> (b: bool)
    requires
        i + pat@.len() <= v@.len(),
    ensures
        b == matches_at(v@, pat@, i as int),
{
    let n: usize = v.len();
    let plen: usize = pat.len();
    let mut j: usize = 0;
    while j < plen
        invariant
            n == v@.len(),
            plen == pat@.len(),
            i + plen <= n,
            j <= plen,
            forall|k: int| 0 <= k < j ==> v@[i + k] == pat@[k],
        decreases plen - j,
    {
        if v[i + j] != pat[j] {
            proof {
                assert(v@.subrange(i as int, i + plen)[j as int] == v@[i + j]);
            }
            return false;
        }
        j += 1;
    }
    proof {
        assert(v@.subrange(i as int, i + plen) =~= pat@);
    }
    true
}

/// The first position at or after `from` where `pat` matches in `v`.
pub fn find_sub_from(v: &Vec<char>, pat: &Vec<char>, from: usize) -> (r: Option<usize>)
    ensures
        match r {
            Some(j) => from <= j && matches_at(v@, pat@, j as int) && (forall|k: int|
                from <= k < j ==> !matches_at(v@, pat@, k)),
            None => forall|k: int| from <= k ==> !matches_at(v@, pat@, k),
        },
{
    let n: usize = v.len();
    let plen: usize = pat.len();
    if plen > n {
        return None;
    }
    let last: usize = n - plen;
    if from > last {
        return None;
    }
    let mut i: usize = from;
    loop
        invariant
            n == v@.len(),
            plen == pat@.len(),
            last == n - plen,
            from <= i <= last,
            forall|k: int| from <= k < i ==> !matches_at(v@, pat@, k),
        decreases last - i,
    {
        if match_at(v, pat, i) {
            return Some(i);
        }
        if i == last {
            return None;
        }
        i += 1;
    }
}

/// `s` with every occurrence of `pat` removed.
pub fn remove_all_str(s: &str, pat: &str) -> (r: String)
    ensures
        r@ == remove_all(s@, pat@),
{
    let v = chars_of(s);
    let p = chars_of(pat);
    let n: usize = v.len();
    let plen: usize = p.len();
    let mut out: Vec<char> = Vec::new();
    if plen == 0 {
        return string_of(v.as_slice());
    }
    let mut i: usize = 0;
    proof {
        assert(v@.skip(0) =~= v@);
    }
    while i < n
        invariant
            n == v@.len(),
            plen == p@.len(),
            plen > 0,
            i <= n,
            remove_all(v@, p@) == out@ + remove_all(v@.skip(i as int), p@),
        decreases n - i,
    {
        let ghost pre = out@;
        let ghost rest = v@.skip(i as int);
        if plen <= n - i && match_at(&v, &p, i) {
            proof {
                assert(rest.subrange(0, plen as int) =~= v@.subrange(
                    i as int,
                    i + plen,
                ));
                assert(rest.skip(plen as int) =~= v@.skip(i + plen));
            }
            i += plen;
        } else {
            proof {
                if plen <= n - i {
                    assert(rest.subrange(0, plen as int) =~= v@.subrange(
                        i as int,
                        i + plen,
                    ));
                } else {
                    assert(rest.len() < plen);
                }
                assert(rest.skip(1) =~= v@.skip(i + 1));
                assert(pre + remove_all(rest, p@) =~= pre.push(v@[i as int])
                    + remove_all(v@.skip(i + 1), p@));
            }
            out.push(v[i]);
            i += 1;
        }
    }
    proof {
        assert(v@.skip(n as int) =~= Seq::<char>::empty());
        assert(out@ + remove_all(v@.skip(n as int), p@) =~= out@);
    }
    string_of(out.as_slice())
}

/// `s` with every leading `/` removed.
pub fn trim_slashes_str(s: &str) -> (r: String)
    ensures
        r@ == trim_slashes(s@),
{
    let v = chars_of(s);
    let n: usize = v.len();
    let mut i: usize = 0;
    proof {
        assert(v@.skip(0) =~= v@);
    }
    while i < n && v[i] == '/'
        invariant
            n == v@.len(),
            i <= n,
            trim_slashes(v@) == trim_slashes(v@.skip(i as int)),
            forall|k: int| 0 <= k < i ==> v@[k] == '/',
        decreases n - i,
    {
        proof {
            assert(v@.skip(i as int).skip(1) =~= v@.skip(i + 1));
        }
        i += 1;
    }
    let mut out: Vec<char> = Vec::new();
    let mut j: usize = i;
    while j < n
        invariant
            n == v@.len(),
            i <= j <= n,
            out@ == v@.subrange(i as int, j as int),
        decreases n - j,
    {
        out.push(v[j]);
        j += 1;
        proof {
            assert(out@ =~= v@.subrange(i as int, j as int));
        }
    }
    proof {
        assert(v@.skip(i as int) =~= v@.subrange(i as int, n as int));
    }
    string_of(out.as_slice())
}

/// The prefix of `s` up to (not including) its last `/`.
pub fn dir_of_str(s: &str) -> (r: String)
    ensures
        r@ == dir_of(s@),
{
    let v = chars_of(s);
    let mut j: usize = v.len();
    proof {
        assert(v@.subrange(0, v@.len() as int) =~= v@);
    }
    while j > 0 && v[j - 1] != '/'
        invariant
            j <= v@.len(),
            dir_of(v@) == dir_of(v@.subrange(0, j as int)),
        decreases j,
    {
        proof {
            assert(v@.subrange(0, j as int).drop_last() =~= v@.subrange(0, j - 1));
        }
        j -= 1;
    }
    if j == 0 {
        proof {
            assert(v@.subrange(0, 0) =~= Seq::<char>::empty());
        }
        return String::new();
    }
    let mut out: Vec<char> = Vec::new();
    let mut k: usize = 0;
    while k < j - 1
        invariant
            j >= 1,
            j <= v@.len(),
            k <= j - 1,
            out@ == v@.subrange(0, k as int),
        decreases j - k,
    {
        out.push(v[k]);
        k += 1;
        proof {
            assert(out@ =~= v@.subrange(0, k as int));
        }
    }
    proof {
        assert(v@.subrange(0, j as int).drop_last() =~= v@.subrange(0, j - 1));
    }
    string_of(out.as_slice())
}

/// The decimal digit character for `d`.
pub open spec fn dec_digit(d: nat) -> char {
    ((48 + d % 10) as u8) as char
}

/// The decimal rendering of `n`, most significant digit first.
pub open spec fn dec_of(n: nat) -> Seq<char>
    decreases n,
{
    if n < 10 {
        seq![dec_digit(n)]
    } else {
        dec_of(n / 10).push(dec_digit(n % 10))
    }
}

/// Appends the decimal rendering of `n` to `out`.
pub fn push_dec(n: u64, out: &mut String)
    ensures
        final(out)@ == old(out)@ + dec_of(n as nat),
    decreases n,
{
    if n < 10 {
        push_char(out, (48 + n as u8) as char);
        proof {
            assert(old(out)@.push(dec_digit(n as nat)) =~= old(out)@ + dec_of(
                n as nat,
            ));
        }
    } else {
        push_dec(n / 10, out);
        push_char(out, (48 + (n % 10) as u8) as char);
        proof {
            assert(old(out)@ + dec_of((n / 10) as nat) + seq![
                dec_digit((n % 10) as nat),
            ] =~= old(out)@ + dec_of(n as nat));
        }
    }
}

/// Whether two string slices hold the same characters.
pub fn str_eq(a: &str, b: &str) -> (r: bool)
    ensures
        r == (a@ == b@),
{
    let va = chars_of(a);
    let vb = chars_of(b);
    if va.len() != vb.len() {
        return false;
    }
    let r = match_at(&va, &vb, 0);
    proof {
        assert(va@.subrange(0, vb@.len() as int) =~= va@);
    }
    r
}

/// Whether `pat` occurs anywhere in `s`.
pub fn contains_str(s: &str, pat: &str) -> (b: bool)
    ensures
        b == has_sub(s@, pat@),
{
    let v = chars_of(s);
    let p = chars_of(pat);
    match find_sub_from(&v, &p, 0) {
        Some(_) => true,
        None => false,
    }
}

} // verus!
