//! Verified text helpers: decimal formatting, character-level string
//! comparison, search and template substitution.  All contracts are
//! stated over the `Seq<char>` views of the strings involved.
use vstd::prelude::*;

verus! {

/// The decimal digit character for a value below ten.
pub open spec fn dec_digit(d: nat) -> char {
    if d == 0 {
        '0'
    } else if d == 1 {
        '1'
    } else if d == 2 {
        '2'
    } else if d == 3 {
        '3'
    } else if d == 4 {
        '4'
    } else if d == 5 {
        '5'
    } else if d == 6 {
        '6'
    } else if d == 7 {
        '7'
    } else if d == 8 {
        '8'
    } else {
        '9'
    }
}

/// The decimal rendering of a natural number, most significant digit
/// first, with no leading zeros (a single `'0'` for zero).
pub open spec fn dec_of(n: nat) -> Seq<char>
    decreases n,
{
    if n < 10 {
        seq![dec_digit(n)]
    } else {
        dec_of(n / 10).push(dec_digit(n % 10))
    }
}

fn digit_str(d: u64) -> (s: &'static str)
    requires
        d < 10,
    ensures
        s@ == seq![dec_digit(d as nat)],
{
    proof {
        reveal_strlit("0");
        reveal_strlit("1");
        reveal_strlit("2");
        reveal_strlit("3");
        reveal_strlit("4");
        reveal_strlit("5");
        reveal_strlit("6");
        reveal_strlit("7");
        reveal_strlit("8");
        reveal_strlit("9");
    }
    let r: &'static str = match d {
        0 => "0",
        1 => "1",
        2 => "2",
        3 => "3",
        4 => "4",
        5 => "5",
        6 => "6",
        7 => "7",
        8 => "8",
        _ => "9",
    };
    proof {
        assert(r@ =~= seq![dec_digit(d as nat)]);
    }
    r
}

/// Renders `n` in decimal.
pub fn dec_u64(n: u64) -> (s: String)
    ensures
        s@ == dec_of(n as nat),
    decreases n,
{
    if n < 10 {
        digit_str(n).to_owned()
    } else {
        let mut s = dec_u64(n / 10);
        s.append(digit_str(n % 10));
        proof {
            assert(s@ =~= dec_of(n as nat));
        }
        s
    }
}

/// Character-for-character string equality.
pub fn str_eq(a: &str, b: &str) -> (r: bool)
    ensures
        r == (a@ == b@),
{
    let alen: usize = a.unicode_len();
    let blen: usize = b.unicode_len();
    if alen != blen {
        return false;
    }
    let mut i: usize = 0;
    while i < alen
        invariant
            alen == a@.len(),
            blen == b@.len(),
            alen == blen,
            i <= alen,
            forall|j: int| 0 <= j < i ==> a@[j] == b@[j],
        decreases alen - i,
    {
        if a.get_char(i) != b.get_char(i) {
            return false;
        }
        i += 1;
    }
    proof {
        assert(a@ =~= b@);
    }
    true
}

/// Whether `pat` occurs in `s` starting at character position `pos`.
pub fn matches_at(s: &str, pat: &str, pos: usize) -> (r: bool)
    requires
        pos <= s@.len(),
    ensures
        r == (pos + pat@.len() <= s@.len() && s@.subrange(
            pos as int,
            pos + pat@.len(),
        ) == pat@),
{
    let slen: usize = s.unicode_len();
    let plen: usize = pat.unicode_len();
    if plen > slen - pos {
        return false;
    }
    let mut j: usize = 0;
    while j < plen
        invariant
            slen == s@.len(),
            plen == pat@.len(),
            pos + plen <= slen,
            j <= plen,
            forall|k: int| 0 <= k < j ==> s@[pos + k] == pat@[k],
        decreases plen - j,
    {
        if s.get_char(pos + j) != pat.get_char(j) {
            proof {
                assert(s@.subrange(pos as int, pos + pat@.len())[j as int] != pat@[j as int]);
            }
            return false;
        }
        j += 1;
    }
    proof {
        assert(s@.subrange(pos as int, pos + pat@.len()) =~= pat@);
    }
    true
}

/// Whether `s` begins with `pre`.
pub fn str_starts_with(s: &str, pre: &str) -> (r: bool)
    ensures
        r == (pre@.len() <= s@.len() && s@.subrange(0, pre@.len() as int) == pre@),
{
    matches_at(s, pre, 0)
}

/// Whether `s` ends with `suf`.
pub fn str_ends_with(s: &str, suf: &str) -> (r: bool)
    ensures
        r == (suf@.len() <= s@.len() && s@.subrange(
            s@.len() - suf@.len(),
            s@.len() as int,
        ) == suf@),
{
    let slen: usize = s.unicode_len();
    let flen: usize = suf.unicode_len();
    if flen > slen {
        return false;
    }
    let r = matches_at(s, suf, slen - flen);
    proof {
        assert(s@.subrange(s@.len() - suf@.len(), s@.len() as int) == s@.subrange(
            (slen - flen) as int,
            (slen - flen) + suf@.len(),
        ));
    }
    r
}

/// `s` with every occurrence of `pat` replaced by `rep`, scanning left
/// to right and never rescanning replaced text.
pub open spec fn replace_spec(s: Seq<char>, pat: Seq<char>, rep: Seq<char>) -> Seq<char>
    decreases s.len(),
{
    if s.len() == 0 {
        s
    } else if pat.len() > 0 && s.len() >= pat.len() && s.subrange(0, pat.len() as int) == pat {
        rep + replace_spec(s.subrange(pat.len() as int, s.len() as int), pat, rep)
    } else {
        seq![s[0]] + replace_spec(s.subrange(1, s.len() as int), pat, rep)
    }
}

/// Replaces every occurrence of `pat` in `s` by `rep`.
pub fn replace_all(s: &str, pat: &str, rep: &str) -> (r: String)
    requires
        pat@.len() >= 1,
    ensures
        r@ == replace_spec(s@, pat@, rep@),
{
    let slen: usize = s.unicode_len();
    let plen: usize = pat.unicode_len();
    let mut out: String = String::new();
    let mut run_start: usize = 0;
    let mut i: usize = 0;
    proof {
        assert(s@.subrange(0, slen as int) =~= s@);
        assert(out@ + s@.subrange(0, 0) + replace_spec(s@, pat@, rep@) =~= replace_spec(
            s@,
            pat@,
            rep@,
        ));
    }
    while i < slen
        invariant
            slen == s@.len(),
            plen == pat@.len(),
            plen >= 1,
            run_start <= i <= slen,
            replace_spec(s@, pat@, rep@) == out@ + s@.subrange(run_start as int, i as int)
                + replace_spec(s@.subrange(i as int, slen as int), pat@, rep@),
        decreases slen - i,
    {
        if matches_at(s, pat, i) {
            let ghost pre = out@;
            out.append(s.substring_char(run_start, i));
            out.append(rep);
            proof {
                let rest = s@.subrange(i as int, slen as int);
                assert(rest.subrange(0, pat@.len() as int) =~= s@.subrange(
                    i as int,
                    i + pat@.len(),
                ));
                assert(rest.subrange(pat@.len() as int, rest.len() as int) =~= s@.subrange(
                    i + plen,
                    slen as int,
                ));
                assert(replace_spec(rest, pat@, rep@) == rep@ + replace_spec(
                    s@.subrange(i + plen, slen as int),
                    pat@,
                    rep@,
                ));
                assert(out@ + s@.subrange((i + plen) as int, (i + plen) as int) =~= out@);
            }
            i += plen;
            run_start = i;
        } else {
            proof {
                let rest = s@.subrange(i as int, slen as int);
                assert(rest.len() > 0);
                if rest.len() >= pat@.len() && rest.subrange(0, pat@.len() as int) == pat@ {
                    assert(s@.subrange(i as int, i + pat@.len()) =~= rest.subrange(
                        0,
                        pat@.len() as int,
                    ));
                }
                assert(replace_spec(rest, pat@, rep@) == seq![rest[0]] + replace_spec(
                    rest.subrange(1, rest.len() as int),
                    pat@,
                    rep@,
                ));
                assert(rest.subrange(1, rest.len() as int) =~= s@.subrange(
                    i + 1,
                    slen as int,
                ));
                assert(s@.subrange(run_start as int, i as int) + seq![rest[0]] =~= s@.subrange(
                    run_start as int,
                    i + 1,
                ));
            }
            i += 1;
        }
    }
    out.append(s.substring_char(run_start, slen));
    proof {
        assert(s@.subrange(slen as int, slen as int) =~= Seq::<char>::empty());
        assert(replace_spec(Seq::<char>::empty(), pat@, rep@) == Seq::<char>::empty());
        assert(replace_spec(s@, pat@, rep@) =~= out@);
    }
    out
}

/// The elements of `parts` concatenated with `sep` between consecutive
/// ones.
pub open spec fn join_of(parts: Seq<Seq<char>>, sep: Seq<char>) -> Seq<char>
    decreases parts.len(),
{
    if parts.len() == 0 {
        Seq::<char>::empty()
    } else if parts.len() == 1 {
        parts[0]
    } else {
        parts[0] + sep + join_of(parts.subrange(1, parts.len() as int), sep)
    }
}

/// View of an optional owned string.
pub open spec fn opt_text(r: Option<String>) -> Option<Seq<char>> {
    match r {
        Some(s) => Some(s@),
        None => None,
    }
}

/// The views of a sequence of owned strings.
pub open spec fn texts_of(v: Seq<String>) -> Seq<Seq<char>> {
    v.map_values(|p: String| p@)
}

/// Whether some text of `v` reads `x`.
pub open spec fn texts_contain(v: Seq<Seq<char>>, x: Seq<char>) -> bool {
    exists|j: int| 0 <= j < v.len() && #[trigger] v[j] == x
}

/// Whether some string of `v` reads `x`.
pub open spec fn seq_has_text(v: Seq<String>, x: Seq<char>) -> bool {
    exists|j: int| 0 <= j < v.len() && #[trigger] v[j]@ == x
}

/// The number of code units before the first zero of a
/// zero-terminated buffer.
pub fn nul_len(units: &Vec<u16>) -> (r: usize)
    requires
        exists|j: int| 0 <= j < units@.len() && units@[j] == 0,
    ensures
        r < units@.len(),
        units@[r as int] == 0,
        forall|k: int| 0 <= k < r ==> units@[k] != 0,
{
    let n: usize = units.len();
    let mut i: usize = 0;
    loop
        invariant
            n == units@.len(),
            i <= n,
            exists|j: int| 0 <= j < units@.len() && units@[j] == 0,
            forall|k: int| 0 <= k < i ==> units@[k] != 0,
        decreases n - i,
    {
        proof {
            if i >= n {
                let j = choose|j: int| 0 <= j < units@.len() && units@[j] == 0;
                assert(units@[j] != 0);
            }
            assert(i < n);
        }
        if units[i] == 0 {
            return i;
        }
        i += 1;
    }
}

/// Membership test of `x` among the strings of `v`.
pub fn vec_has_text(v: &Vec<String>, x: &str) -> (r: bool)
    ensures
        r == seq_has_text(v@, x@),
{
    let mut j: usize = 0;
    while j < v.len()
        invariant
            j <= v@.len(),
            forall|k: int| 0 <= k < j ==> #[trigger] v@[k]@ != x@,
        decreases v@.len() - j,
    {
        if str_eq(v[j].as_str(), x) {
            return true;
        }
        j += 1;
    }
    false
}

} // verus!
