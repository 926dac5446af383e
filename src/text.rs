//! Text helpers over character sequences: literal replacement, substring
//! search, ASCII case-insensitive comparison and decimal rendering.
use vstd::prelude::*;
use vstd::utf8::*;

verus! {

/// Relies on `str::chars`: the characters of a text, in order.
#[verifier::external_body]
pub(crate) fn chars_of(s: &str) -> (r: Vec<char>)
    ensures
        r@ == s@,
{
    s.chars().collect()
}

/// Relies on `String: FromIterator<char>`: the text made of the given characters.
#[verifier::external_body]
pub(crate) fn string_from_chars(c: &[char]) -> (r: String)
    ensures
        r@ == c@,
{
    c.iter().collect()
}

/// Relies on `String::from_utf8`: it succeeds exactly on valid UTF-8, whose
/// characters it returns.
#[verifier::external_body]
pub(crate) fn utf8_text(b: Vec<u8>) -> (r: Option<String>)
    ensures
        r is Some <==> valid_utf8(b@),
        r is Some ==> r->0@ == decode_utf8(b@),
{
    String::from_utf8(b).ok()
}

/// What `String::from_utf8_lossy` makes of a byte sequence.
pub uninterp spec fn utf8_lossy_of(b: Seq<u8>) -> Seq<char>;

/// Relies on `String::from_utf8_lossy`: valid UTF-8 is decoded unchanged,
/// anything else has its invalid sequences replaced.
#[verifier::external_body]
pub(crate) fn lossy_text(b: &[u8]) -> (r: String)
    ensures
        r@ == utf8_lossy_of(b@),
        valid_utf8(b@) ==> r@ == decode_utf8(b@),
{
    String::from_utf8_lossy(b).into_owned()
}

/// `pat` occurs in `s` at position `i`.
pub open spec fn occurs_at(s: Seq<char>, pat: Seq<char>, i: int) -> bool {
    0 <= i && i + pat.len() <= s.len() && s.subrange(i, i + pat.len()) == pat
}

/// `pat` occurs somewhere in `s`.
pub open spec fn contains_seq(s: Seq<char>, pat: Seq<char>) -> bool {
    exists|i: int| occurs_at(s, pat, i)
}

/// `s` with every occurrence of `pat` replaced by `rep`, scanning from the
/// left without overlaps; an empty `pat` matches before every character and
/// at the end.
pub open spec fn replace_all(s: Seq<char>, pat: Seq<char>, rep: Seq<char>) -> Seq<char>
    decreases s.len(),
{
    if pat.len() == 0 {
        if s.len() == 0 {
            rep
        } else {
            rep + seq![s[0]] + replace_all(s.drop_first(), pat, rep)
        }
    } else if s.len() < pat.len() {
        s
    } else if s.subrange(0, pat.len() as int) == pat {
        rep + replace_all(s.subrange(pat.len() as int, s.len() as int), pat, rep)
    } else {
        seq![s[0]] + replace_all(s.drop_first(), pat, rep)
    }
}

/// Whether `pat` occurs in `s` at position `i`.
fn matches_at(s: &Vec<char>, pat: &Vec<char>, i: usize) -> (r: bool)
    ensures
        r == occurs_at(s@, pat@, i as int),
{
    let n = s.len();
    if i > n || pat.len() > n - i {
        return false;
    }
    let mut k: usize = 0;
    while k < pat.len()
        invariant
            n == s@.len(),
            i + pat@.len() <= s@.len(),
            k <= pat@.len(),
            forall|j: int| 0 <= j < k ==> s@[i + j] == pat@[j],
        decreases pat@.len() - k,
    {
        assert(i + k < s@.len());
        if s[i + k] != pat[k] {
            assert(s@.subrange(i as int, i + pat@.len())[k as int] != pat@[k as int]);
            return false;
        }
        k += 1;
    }
    assert(s@.subrange(i as int, i + pat@.len()) =~= pat@);
    true
}

/// Whether `needle` occurs in `haystack`.
pub fn contains_text(haystack: &str, needle: &str) -> (r: bool)
    ensures
        r == contains_seq(haystack@, needle@),
{
    let s = chars_of(haystack);
    let pat = chars_of(needle);
    let mut i: usize = 0;
    while i < s.len()
        invariant
            s@ == haystack@,
            pat@ == needle@,
            i <= s@.len(),
            forall|j: int| 0 <= j < i ==> !occurs_at(s@, pat@, j),
        decreases s@.len() - i,
    {
        if matches_at(&s, &pat, i) {
            return true;
        }
        i += 1;
    }
    let found = matches_at(&s, &pat, i);
    assert forall|j: int| !found implies !occurs_at(s@, pat@, j) by {
        if 0 <= j && j + pat@.len() <= s@.len() {
            assert(j <= i);
        }
    }
    found
}

/// One step of `replace_all` where `pat` does not occur at the start of `s`.
proof fn lemma_replace_step(s: Seq<char>, pat: Seq<char>, rep: Seq<char>)
    requires
        pat.len() > 0,
        s.len() > 0,
        !occurs_at(s, pat, 0),
    ensures
        replace_all(s, pat, rep) == seq![s[0]] + replace_all(s.drop_first(), pat, rep),
{
    if s.len() < pat.len() {
        assert(s.drop_first().len() < pat.len());
        assert(s =~= seq![s[0]] + s.drop_first());
    }
}

/// Every occurrence of `pat` in `s` replaced by `rep`, as `str::replace` does.
pub fn replace_text(s: &str, pat: &str, rep: &str) -> (r: String)
    ensures
        r@ == replace_all(s@, pat@, rep@),
{
    let src = chars_of(s);
    let p = chars_of(pat);
    let with = chars_of(rep);
    let mut out: Vec<char> = Vec::new();
    let mut i: usize = 0;
    assert(src@.subrange(0, src@.len() as int) =~= src@);
    assert(out@ + replace_all(src@, p@, with@) =~= replace_all(src@, p@, with@));
    while i < src.len()
        invariant
            src@ == s@,
            p@ == pat@,
            with@ == rep@,
            i <= src@.len(),
            out@ + replace_all(src@.subrange(i as int, src@.len() as int), p@, with@)
                == replace_all(s@, pat@, rep@),
        decreases src@.len() - i,
    {
        let ghost rest = src@.subrange(i as int, src@.len() as int);
        let ghost before = out@;
        if p.len() > 0 && matches_at(&src, &p, i) {
            let mut k: usize = 0;
            while k < with.len()
                invariant
                    k <= with@.len(),
                    out@ == before + with@.subrange(0, k as int),
                decreases with@.len() - k,
            {
                out.push(with[k]);
                k += 1;
            }
            proof {
                assert(rest.subrange(0, p@.len() as int) =~= p@);
                assert(rest.subrange(p@.len() as int, rest.len() as int) =~= src@.subrange(
                    i + p@.len(),
                    src@.len() as int,
                ));
                assert(with@.subrange(0, k as int) =~= with@);
                assert(out@ + replace_all(src@.subrange(i + p@.len(), src@.len() as int), p@, with@)
                    =~= before + replace_all(rest, p@, with@));
            }
            i += p.len();
        } else {
            if p.len() == 0 {
                let mut k: usize = 0;
                while k < with.len()
                    invariant
                        k <= with@.len(),
                        out@ == before + with@.subrange(0, k as int),
                    decreases with@.len() - k,
                {
                    out.push(with[k]);
                    k += 1;
                }
                assert(with@.subrange(0, k as int) =~= with@);
            } else {
                proof {
                    assert(!occurs_at(rest, p@, 0)) by {
                        if occurs_at(rest, p@, 0) {
                            assert(rest.subrange(0, p@.len() as int) =~= src@.subrange(
                                i as int,
                                i + p@.len(),
                            ));
                        }
                    }
                    lemma_replace_step(rest, p@, with@);
                }
            }
            let ghost mid = out@;
            out.push(src[i]);
            proof {
                assert(rest.drop_first() =~= src@.subrange(i + 1, src@.len() as int));
                assert(out@ + replace_all(rest.drop_first(), p@, with@) =~= mid + (seq![rest[0]]
                    + replace_all(rest.drop_first(), p@, with@)));
            }
            i += 1;
        }
    }
    let ghost before = out@;
    if p.len() == 0 {
        let mut k: usize = 0;
        while k < with.len()
            invariant
                k <= with@.len(),
                out@ == before + with@.subrange(0, k as int),
            decreases with@.len() - k,
        {
            out.push(with[k]);
            k += 1;
        }
        assert(with@.subrange(0, k as int) =~= with@);
    }
    assert(src@.subrange(i as int, src@.len() as int) =~= Seq::<char>::empty());
    string_from_chars(out.as_slice())
}

/// Whether `a` and `b` are the same text.
pub fn same_text(a: &str, b: &str) -> (r: bool)
    ensures
        r == (a@ == b@),
{
    let x = chars_of(a);
    let y = chars_of(b);
    if x.len() != y.len() {
        return false;
    }
    let mut i: usize = 0;
    while i < x.len()
        invariant
            x@ == a@,
            y@ == b@,
            x@.len() == y@.len(),
            forall|j: int| 0 <= j < i ==> x@[j] == y@[j],
        decreases x@.len() - i,
    {
        if x[i] != y[i] {
            return false;
        }
        i += 1;
    }
    assert(x@ =~= y@);
    true
}

/// The character's code, with ASCII upper case letters taken to lower case.
pub open spec fn fold_ascii(c: char) -> u32 {
    if 65 <= (c as u32) <= 90 {
        ((c as u32) + 32) as u32
    } else {
        c as u32
    }
}

/// `a` and `b` are the same text when ASCII letter case is ignored.
pub open spec fn same_ignoring_ascii_case(a: Seq<char>, b: Seq<char>) -> bool {
    a.len() == b.len() && forall|i: int| 0 <= i < a.len() ==> fold_ascii(a[i]) == fold_ascii(b[i])
}

fn fold_char(c: char) -> (r: u32)
    ensures
        r == fold_ascii(c),
{
    let code = c as u32;
    if 65 <= code && code <= 90 {
        code + 32
    } else {
        code
    }
}

/// Whether `a` and `b` are the same text when ASCII letter case is ignored.
pub fn eq_ignore_ascii_case(a: &str, b: &str) -> (r: bool)
    ensures
        r == same_ignoring_ascii_case(a@, b@),
{
    let x = chars_of(a);
    let y = chars_of(b);
    if x.len() != y.len() {
        return false;
    }
    let mut i: usize = 0;
    while i < x.len()
        invariant
            x@ == a@,
            y@ == b@,
            x@.len() == y@.len(),
            forall|j: int| 0 <= j < i ==> fold_ascii(x@[j]) == fold_ascii(y@[j]),
        decreases x@.len() - i,
    {
        if fold_char(x[i]) != fold_char(y[i]) {
            return false;
        }
        i += 1;
    }
    true
}

/// The decimal digits of `n`, as ASCII bytes.
pub open spec fn decimal_spec(n: nat) -> Seq<u8>
    decreases n,
{
    if n < 10 {
        seq![(48 + n) as u8]
    } else {
        decimal_spec(n / 10).push((48 + n % 10) as u8)
    }
}

/// The decimal digits of `n`, as ASCII bytes.
pub fn decimal_digits(n: usize) -> (r: Vec<u8>)
    ensures
        r@ == decimal_spec(n as nat),
    decreases n,
{
    if n < 10 {
        vec![48 + n as u8]
    } else {
        let mut v = decimal_digits(n / 10);
        v.push(48 + (n % 10) as u8);
        v
    }
}

/// `items` joined with `sep` between consecutive items.
pub open spec fn joined(items: Seq<Seq<char>>, sep: Seq<char>) -> Seq<char>
    decreases items.len(),
{
    if items.len() == 0 {
        Seq::empty()
    } else if items.len() == 1 {
        items[0]
    } else {
        joined(items.drop_last(), sep) + sep + items.last()
    }
}

/// The texts of `items` joined with `sep` between consecutive ones.
pub fn join_texts(items: &Vec<String>, sep: &str) -> (r: String)
    ensures
        r@ == joined(items@.map_values(|s: String| s@), sep@),
{
    let mut out = String::new();
    let mut i: usize = 0;
    while i < items.len()
        invariant
            i <= items@.len(),
            out@ == joined(items@.subrange(0, i as int).map_values(|s: String| s@), sep@),
        decreases items@.len() - i,
    {
        if i > 0 {
            out.append(sep);
        }
        out.append(items[i].as_str());
        proof {
            let prefix = items@.subrange(0, i + 1).map_values(|s: String| s@);
            assert(prefix.drop_last() =~= items@.subrange(0, i as int).map_values(|s: String| s@));
            assert(prefix.last() == items@[i as int]@);
            if i == 0 {
                assert(prefix.len() == 1);
                assert(out@ =~= prefix[0]);
            }
        }
        i += 1;
    }
    assert(items@.subrange(0, i as int) =~= items@);
    out
}

} // verus!
