use vstd::prelude::*;

verus! {

/// Relies on String::push: appends exactly the given character.
#[verifier::external_body]
pub(crate) fn string_push(s: &mut String, c: char)
    ensures
        final(s)@ == old(s)@.push(c),
{
    s.push(c);
}

/// Character-for-character string equality.
pub fn str_eq(a: &str, b: &str) -> (r: bool)
    ensures
        r == (a@ == b@),
{
    let an: usize = a.unicode_len();
    let bn: usize = b.unicode_len();
    if an != bn {
        return false;
    }
    let mut i: usize = 0;
    while i < an
        invariant
            an == a@.len(),
            an == b@.len(),
            0 <= i <= an,
            forall|j: int| 0 <= j < i ==> a@[j] == b@[j],
        decreases an - i,
    {
        if a.get_char(i) != b.get_char(i) {
            assert(a@[i as int] != b@[i as int]);
            return false;
        }
        i += 1;
    }
    proof {
        assert(a@ =~= b@);
    }
    true
}

/// Byte-for-byte equality of two byte strings.
pub fn bytes_eq(a: &[u8], b: &[u8]) -> (r: bool)
    ensures
        r == (a@ == b@),
{
    let an: usize = a.len();
    let bn: usize = b.len();
    if an != bn {
        return false;
    }
    let mut i: usize = 0;
    while i < an
        invariant
            an == a@.len(),
            an == b@.len(),
            0 <= i <= an,
            forall|j: int| 0 <= j < i ==> a@[j] == b@[j],
        decreases an - i,
    {
        if a[i] != b[i] {
            return false;
        }
        i += 1;
    }
    proof {
        assert(a@ =~= b@);
    }
    true
}

/// True when `p` is a prefix of `s`.
pub open spec fn is_prefix_of(p: Seq<char>, s: Seq<char>) -> bool {
    p.len() <= s.len() && s.take(p.len() as int) == p
}

/// Whether `s` starts with `prefix`.
pub fn starts_with_str(s: &str, prefix: &str) -> (r: bool)
    ensures
        r == is_prefix_of(prefix@, s@),
{
    let sn: usize = s.unicode_len();
    let pn: usize = prefix.unicode_len();
    if pn > sn {
        assert(!is_prefix_of(prefix@, s@));
        return false;
    }
    let mut i: usize = 0;
    while i < pn
        invariant
            sn == s@.len(),
            pn == prefix@.len(),
            pn <= sn,
            0 <= i <= pn,
            forall|j: int| 0 <= j < i ==> s@[j] == prefix@[j],
        decreases pn - i,
    {
        if s.get_char(i) != prefix.get_char(i) {
            assert(s@.take(pn as int)[i as int] != prefix@[i as int]);
            return false;
        }
        i += 1;
    }
    proof {
        assert(s@.take(pn as int) =~= prefix@);
    }
    true
}

/// The string with all leading and trailing space characters removed.
pub open spec fn trim_spaces(s: Seq<char>) -> Seq<char>
    decreases s.len(),
{
    if s.len() > 0 && s[0] == ' ' {
        trim_spaces(s.drop_first())
    } else if s.len() > 0 && s[s.len() - 1] == ' ' {
        trim_spaces(s.drop_last())
    } else {
        s
    }
}

/// A string with no space at either end trims to itself.
pub proof fn lemma_trim_id(s: Seq<char>)
    requires
        s.len() > 0 ==> (s[0] != ' ' && s[s.len() - 1] != ' '),
    ensures
        trim_spaces(s) == s,
{
}

/// Strips leading and trailing spaces.
pub fn trim_spaces_str<'a>(s: &'a str) -> (r: &'a str)
    ensures
        r@ == trim_spaces(s@),
{
    let n: usize = s.unicode_len();
    let mut lo: usize = 0;
    let mut hi: usize = n;
    proof {
        assert(s@.subrange(0, n as int) =~= s@);
    }
    while lo < hi && s.get_char(lo) == ' '
        invariant
            n == s@.len(),
            0 <= lo <= hi <= n,
            hi == n,
            trim_spaces(s@) == trim_spaces(s@.subrange(lo as int, hi as int)),
        decreases hi - lo,
    {
        proof {
            let sub = s@.subrange(lo as int, hi as int);
            assert(sub[0] == ' ');
            assert(sub.drop_first() =~= s@.subrange(lo as int + 1, hi as int));
        }
        lo += 1;
    }
    while lo < hi && s.get_char(hi - 1) == ' '
        invariant
            n == s@.len(),
            0 <= lo <= hi <= n,
            trim_spaces(s@) == trim_spaces(s@.subrange(lo as int, hi as int)),
            lo < hi ==> s@[lo as int] != ' ',
        decreases hi - lo,
    {
        proof {
            let sub = s@.subrange(lo as int, hi as int);
            assert(sub[0] != ' ');
            assert(sub[sub.len() - 1] == ' ');
            assert(sub.drop_last() =~= s@.subrange(lo as int, hi as int - 1));
        }
        hi -= 1;
    }
    proof {
        let sub = s@.subrange(lo as int, hi as int);
        if sub.len() > 0 {
            assert(sub[0] != ' ');
            assert(s@[hi as int - 1] != ' ');
            assert(sub[sub.len() - 1] != ' ');
        }
        assert(trim_spaces(sub) == sub);
    }
    s.substring_char(lo, hi)
}

} // verus!
