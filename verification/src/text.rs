//! Comparing and normalising names.
use vstd::prelude::*;
use vstd::string::StrSliceExecFns;
use crate::utf16_string::string_from_chars;

verus! {

/// Whether every character of `s` is ASCII.
pub open spec fn spec_all_ascii(s: Seq<char>) -> bool {
    forall|i: int| 0 <= i < s.len() ==> (s[i] as u32) < 128
}

/// What `str::to_lowercase` returns for a string that is not all ASCII: its
/// lowercase equivalent under the Unicode lowercase mapping.
pub uninterp spec fn spec_unicode_lowercase(s: Seq<char>) -> Seq<char>;

/// The lowercase equivalent of a string: for an ASCII string, 'A' to 'Z'
/// become 'a' to 'z'; otherwise the Unicode lowercase mapping.
pub open spec fn spec_lowercase(s: Seq<char>) -> Seq<char> {
    if spec_all_ascii(s) {
        spec_ascii_lowercase(s)
    } else {
        spec_unicode_lowercase(s)
    }
}

/// Whether a character has the Unicode White_Space property.
pub open spec fn spec_is_whitespace(c: char) -> bool {
    let u = c as u32;
    (0x9 <= u <= 0xD) || u == 0x20 || u == 0x85 || u == 0xA0 || u == 0x1680 || (0x2000 <= u <= 0x200A)
        || u == 0x2028 || u == 0x2029 || u == 0x202F || u == 0x205F || u == 0x3000
}

/// A string without its leading whitespace.
pub open spec fn spec_trim_start(s: Seq<char>) -> Seq<char>
    decreases s.len(),
{
    if s.len() > 0 && spec_is_whitespace(s[0]) {
        spec_trim_start(s.skip(1))
    } else {
        s
    }
}

/// A string without its trailing whitespace.
pub open spec fn spec_trim_end(s: Seq<char>) -> Seq<char>
    decreases s.len(),
{
    if s.len() > 0 && spec_is_whitespace(s.last()) {
        spec_trim_end(s.drop_last())
    } else {
        s
    }
}

/// A string without its leading and trailing whitespace.
pub open spec fn spec_trim(s: Seq<char>) -> Seq<char> {
    spec_trim_end(spec_trim_start(s))
}

/// `str::to_lowercase`: the string's lowercase equivalent. For an ASCII
/// string that is 'A' to 'Z' mapped to 'a' to 'z'; the Unicode mapping of
/// other strings is left unsaid.
#[verifier::external_body]
pub(crate) fn to_lowercase(s: &str) -> (r: String)
    ensures
        r@ == spec_lowercase(s@),
        !spec_all_ascii(s@) ==> r@ == spec_unicode_lowercase(s@),
{
    s.to_lowercase()
}

/// Whether a character has the Unicode White_Space property.
pub(crate) fn is_whitespace(c: char) -> (r: bool)
    ensures
        r == spec_is_whitespace(c),
{
    let u = c as u32;
    (0x9 <= u && u <= 0xD) || u == 0x20 || u == 0x85 || u == 0xA0 || u == 0x1680 || (0x2000 <= u && u <= 0x200A)
        || u == 0x2028 || u == 0x2029 || u == 0x202F || u == 0x205F || u == 0x3000
}

proof fn lemma_trim_start_skip(s: Seq<char>, i: int)
    requires
        0 <= i <= s.len(),
        forall|j: int| 0 <= j < i ==> spec_is_whitespace(#[trigger] s[j]),
    ensures
        spec_trim_start(s) == spec_trim_start(s.skip(i)),
    decreases i,
{
    if i > 0 {
        assert(s.skip(1).skip(i - 1) =~= s.skip(i));
        assert forall|j: int| 0 <= j < i - 1 implies spec_is_whitespace(#[trigger] s.skip(1)[j]) by {
            assert(s.skip(1)[j] == s[j + 1]);
        }
        lemma_trim_start_skip(s.skip(1), i - 1);
    } else {
        assert(s.skip(0) =~= s);
    }
}

proof fn lemma_trim_end_take(s: Seq<char>, k: int)
    requires
        0 <= k <= s.len(),
        forall|j: int| k <= j < s.len() ==> spec_is_whitespace(#[trigger] s[j]),
    ensures
        spec_trim_end(s) == spec_trim_end(s.take(k)),
    decreases s.len() - k,
{
    if k < s.len() {
        assert(s.drop_last().take(k) =~= s.take(k));
        lemma_trim_end_take(s.drop_last(), k);
    } else {
        assert(s.take(k) =~= s);
    }
}

/// `str::trim`: the string without its leading and trailing whitespace.
pub(crate) fn trim<'b>(s: &'b str) -> (r: &'b str)
    ensures
        r@ == spec_trim(s@),
{
    let n = s.unicode_len();
    let mut i: usize = 0;
    while i < n && is_whitespace(s.get_char(i))
        invariant
            0 <= i <= n,
            n == s@.len(),
            forall|j: int| 0 <= j < i ==> spec_is_whitespace(#[trigger] s@[j]),
        decreases n - i,
    {
        i = i + 1;
    }
    proof {
        lemma_trim_start_skip(s@, i as int);
    }
    let ghost rest = s@.skip(i as int);
    let mut k: usize = n;
    while k > i && is_whitespace(s.get_char(k - 1))
        invariant
            i <= k <= n,
            n == s@.len(),
            rest == s@.skip(i as int),
            forall|j: int| k - i <= j < rest.len() ==> spec_is_whitespace(#[trigger] rest[j]),
        decreases k,
    {
        k = k - 1;
    }
    proof {
        lemma_trim_end_take(rest, k - i);
        let t = rest.take(k - i);
        assert(t =~= s@.subrange(i as int, k as int));
        if i < n {
            assert(!spec_is_whitespace(rest[0]));
        }
        assert(spec_trim_start(rest) == rest);
        if k > i {
            assert(!spec_is_whitespace(t.last()));
        }
        assert(spec_trim_end(t) == t);
    }
    s.substring_char(i, k)
}

/// A character's ASCII lowercase equivalent: 'A' to 'Z' become 'a' to 'z',
/// every other character stays.
pub open spec fn spec_ascii_lower_char(c: char) -> char {
    if c == 'A' {
        'a'
    } else     if c == 'B' {
        'b'
    } else     if c == 'C' {
        'c'
    } else     if c == 'D' {
        'd'
    } else     if c == 'E' {
        'e'
    } else     if c == 'F' {
        'f'
    } else     if c == 'G' {
        'g'
    } else     if c == 'H' {
        'h'
    } else     if c == 'I' {
        'i'
    } else     if c == 'J' {
        'j'
    } else     if c == 'K' {
        'k'
    } else     if c == 'L' {
        'l'
    } else     if c == 'M' {
        'm'
    } else     if c == 'N' {
        'n'
    } else     if c == 'O' {
        'o'
    } else     if c == 'P' {
        'p'
    } else     if c == 'Q' {
        'q'
    } else     if c == 'R' {
        'r'
    } else     if c == 'S' {
        's'
    } else     if c == 'T' {
        't'
    } else     if c == 'U' {
        'u'
    } else     if c == 'V' {
        'v'
    } else     if c == 'W' {
        'w'
    } else     if c == 'X' {
        'x'
    } else     if c == 'Y' {
        'y'
    } else     if c == 'Z' {
        'z'
    } else {
        c
    }
}

/// A string with every character in its ASCII lowercase equivalent.
pub open spec fn spec_ascii_lowercase(s: Seq<char>) -> Seq<char> {
    s.map_values(|c: char| spec_ascii_lower_char(c))
}

/// A character's ASCII lowercase equivalent.
fn ascii_lower_char(c: char) -> (r: char)
    ensures
        r == spec_ascii_lower_char(c),
{
    if c == 'A' {
        'a'
    } else     if c == 'B' {
        'b'
    } else     if c == 'C' {
        'c'
    } else     if c == 'D' {
        'd'
    } else     if c == 'E' {
        'e'
    } else     if c == 'F' {
        'f'
    } else     if c == 'G' {
        'g'
    } else     if c == 'H' {
        'h'
    } else     if c == 'I' {
        'i'
    } else     if c == 'J' {
        'j'
    } else     if c == 'K' {
        'k'
    } else     if c == 'L' {
        'l'
    } else     if c == 'M' {
        'm'
    } else     if c == 'N' {
        'n'
    } else     if c == 'O' {
        'o'
    } else     if c == 'P' {
        'p'
    } else     if c == 'Q' {
        'q'
    } else     if c == 'R' {
        'r'
    } else     if c == 'S' {
        's'
    } else     if c == 'T' {
        't'
    } else     if c == 'U' {
        'u'
    } else     if c == 'V' {
        'v'
    } else     if c == 'W' {
        'w'
    } else     if c == 'X' {
        'x'
    } else     if c == 'Y' {
        'y'
    } else     if c == 'Z' {
        'z'
    } else {
        c
    }
}

/// A copy of the string in which 'A' to 'Z' are mapped to 'a' to 'z' and
/// every other character is unchanged, as `str::to_ascii_lowercase` gives it.
pub(crate) fn to_ascii_lowercase(s: &str) -> (r: String)
    ensures
        r@ == spec_ascii_lowercase(s@),
{
    let n = s.unicode_len();
    let mut out: Vec<char> = Vec::new();
    let mut i: usize = 0;
    while i < n
        invariant
            0 <= i <= n,
            n == s@.len(),
            out@ == spec_ascii_lowercase(s@.take(i as int)),
        decreases n - i,
    {
        let c = s.get_char(i);
        out.push(ascii_lower_char(c));
        proof {
            assert(spec_ascii_lowercase(s@.take(i + 1)) =~= spec_ascii_lowercase(s@.take(i as int)).push(
                spec_ascii_lower_char(c),
            ));
        }
        i = i + 1;
    }
    proof {
        assert(s@.take(n as int) =~= s@);
    }
    string_from_chars(&out)
}

/// Whether two strings hold the same characters.
pub fn str_eq(a: &str, b: &str) -> (r: bool)
    ensures
        r == (a@ == b@),
{
    let n = a.unicode_len();
    if n != b.unicode_len() {
        return false;
    }
    let mut i: usize = 0;
    while i < n
        invariant
            0 <= i <= n,
            n == a@.len(),
            n == b@.len(),
            forall|j: int| 0 <= j < i ==> a@[j] == b@[j],
        decreases n - i,
    {
        if a.get_char(i) != b.get_char(i) {
            return false;
        }
        i = i + 1;
    }
    assert(a@ =~= b@);
    true
}

/// The lowercase equivalent of a string, trimmed.
pub fn lower_trimmed(s: &str) -> (r: String)
    ensures
        r@ == spec_trim(spec_lowercase(s@)),
{
    let lower = to_lowercase(s);
    let t = trim(lower.as_str());
    t.to_owned()
}

/// A string, trimmed, in its lowercase equivalent.
pub fn trimmed_lower(s: &str) -> (r: String)
    ensures
        r@ == spec_lowercase(spec_trim(s@)),
{
    to_lowercase(trim(s))
}

/// The characters of a string without NULs and whitespace.
pub open spec fn spec_squeeze(s: Seq<char>) -> Seq<char> {
    s.filter(|c: char| c != '\0' && !spec_is_whitespace(c))
}

/// The characters of a string without NULs and whitespace.
pub fn squeeze(s: &str) -> (r: Vec<char>)
    ensures
        r@ == spec_squeeze(s@),
{
    let n = s.unicode_len();
    let mut out: Vec<char> = Vec::new();
    let mut i: usize = 0;
    proof {
        assert(s@.take(0).filter(|c: char| c != '\0' && !spec_is_whitespace(c)) =~= Seq::<char>::empty());
    }
    while i < n
        invariant
            0 <= i <= n,
            n == s@.len(),
            out@ == s@.take(i as int).filter(|c: char| c != '\0' && !spec_is_whitespace(c)),
        decreases n - i,
    {
        let c = s.get_char(i);
        proof {
            assert(s@.take(i + 1).drop_last() =~= s@.take(i as int));
            assert(s@.take(i + 1).last() == c);
            s@.take(i as int).lemma_filter_push(c, |c: char| c != '\0' && !spec_is_whitespace(c));
            assert(s@.take(i as int).push(c) =~= s@.take(i + 1));
        }
        if c != '\0' && !is_whitespace(c) {
            out.push(c);
        }
        i = i + 1;
    }
    proof {
        assert(s@.take(n as int) =~= s@);
    }
    out
}

/// Whether two character vectors hold the same characters.
pub fn chars_eq(a: &Vec<char>, b: &Vec<char>) -> (r: bool)
    ensures
        r == (a@ == b@),
{
    if a.len() != b.len() {
        return false;
    }
    let mut i: usize = 0;
    while i < a.len()
        invariant
            0 <= i <= a@.len(),
            a@.len() == b@.len(),
            forall|j: int| 0 <= j < i ==> a@[j] == b@[j],
        decreases a@.len() - i,
    {
        if a[i] != b[i] {
            return false;
        }
        i = i + 1;
    }
    assert(a@ =~= b@);
    true
}

/// Whether `s` ends with `suffix`.
pub open spec fn spec_ends_with(s: Seq<char>, suffix: Seq<char>) -> bool {
    s.len() >= suffix.len() && s.subrange(s.len() - suffix.len(), s.len() as int) == suffix
}

/// Whether `s` ends with `suffix`.
pub fn str_ends_with(s: &str, suffix: &str) -> (r: bool)
    ensures
        r == spec_ends_with(s@, suffix@),
{
    let n = s.unicode_len();
    let k = suffix.unicode_len();
    if n < k {
        return false;
    }
    let mut i: usize = 0;
    while i < k
        invariant
            0 <= i <= k <= n,
            n == s@.len(),
            k == suffix@.len(),
            forall|j: int| 0 <= j < i ==> s@[n - k + j] == suffix@[j],
        decreases k - i,
    {
        if s.get_char(n - k + i) != suffix.get_char(i) {
            assert(s@.subrange(n - k, n as int)[i as int] != suffix@[i as int]);
            return false;
        }
        i = i + 1;
    }
    assert(s@.subrange(n - k, n as int) =~= suffix@);
    true
}

/// Whether `s` starts with `prefix`.
pub open spec fn spec_starts_with(s: Seq<char>, prefix: Seq<char>) -> bool {
    s.len() >= prefix.len() && s.subrange(0, prefix.len() as int) == prefix
}

/// Whether `s` starts with `prefix`.
pub fn str_starts_with(s: &str, prefix: &str) -> (r: bool)
    ensures
        r == spec_starts_with(s@, prefix@),
{
    let n = s.unicode_len();
    let k = prefix.unicode_len();
    if n < k {
        return false;
    }
    let mut i: usize = 0;
    while i < k
        invariant
            0 <= i <= k <= n,
            n == s@.len(),
            k == prefix@.len(),
            forall|j: int| 0 <= j < i ==> s@[j] == prefix@[j],
        decreases k - i,
    {
        if s.get_char(i) != prefix.get_char(i) {
            assert(s@.subrange(0, k as int)[i as int] != prefix@[i as int]);
            return false;
        }
        i = i + 1;
    }
    assert(s@.subrange(0, k as int) =~= prefix@);
    true
}

/// `s` with every match of `pat` replaced by `with`, the matches taken from
/// the left and not overlapping.
pub open spec fn spec_replace(s: Seq<char>, pat: Seq<char>, with: Seq<char>) -> Seq<char>
    decreases s.len(),
{
    if s.len() == 0 {
        Seq::empty()
    } else if 0 < pat.len() <= s.len() && s.take(pat.len() as int) == pat {
        with + spec_replace(s.skip(pat.len() as int), pat, with)
    } else {
        seq![s[0]] + spec_replace(s.skip(1), pat, with)
    }
}

/// `s` with every match of the non-empty `pat` replaced by `with`, the
/// matches taken from the left and not overlapping.
pub fn replace_all(s: &str, pat: &str, with: &str) -> (r: String)
    requires
        pat@.len() > 0,
    ensures
        r@ == spec_replace(s@, pat@, with@),
{
    let n = s.unicode_len();
    let k = pat.unicode_len();
    let mut out = String::new();
    let mut i: usize = 0;
    proof {
        assert(s@.skip(0) =~= s@);
    }
    while i < n
        invariant
            0 <= i <= n,
            n == s@.len(),
            k == pat@.len(),
            k > 0,
            out@ + spec_replace(s@.skip(i as int), pat@, with@) == spec_replace(s@, pat@, with@),
        decreases n - i,
    {
        let ghost rest = s@.skip(i as int);
        if k <= n - i && str_eq(s.substring_char(i, i + k), pat) {
            proof {
                assert(rest.take(k as int) =~= s@.subrange(i as int, i + k));
                assert(rest.skip(k as int) =~= s@.skip(i + k));
                assert(out@ + with@ + spec_replace(s@.skip(i + k), pat@, with@)
                    =~= out@ + (with@ + spec_replace(s@.skip(i + k), pat@, with@)));
            }
            out.append(with);
            i = i + k;
        } else {
            let c = s.substring_char(i, i + 1);
            proof {
                if k <= n - i {
                    assert(rest.take(k as int) =~= s@.subrange(i as int, i + k));
                }
                assert(rest.skip(1) =~= s@.skip(i + 1));
                assert(c@ =~= seq![rest[0]]);
                assert(out@ + c@ + spec_replace(s@.skip(i + 1), pat@, with@)
                    =~= out@ + (seq![rest[0]] + spec_replace(s@.skip(i + 1), pat@, with@)));
            }
            out.append(c);
            i = i + 1;
        }
    }
    proof {
        assert(s@.skip(n as int) =~= Seq::<char>::empty());
        assert(out@ + Seq::<char>::empty() =~= out@);
    }
    out
}

/// Where `s` ends with a character that `pat` does not hold, so does every
/// replacement in `s`.
pub proof fn lemma_replace_keeps_last(s: Seq<char>, pat: Seq<char>, with: Seq<char>, c: char)
    requires
        s.len() > 0,
        s.last() == c,
        !pat.contains(c),
    ensures
        spec_replace(s, pat, with).len() > 0,
        spec_replace(s, pat, with).last() == c,
    decreases s.len(),
{
    if 0 < pat.len() <= s.len() && s.take(pat.len() as int) == pat {
        if s.len() == pat.len() {
            assert(s.take(pat.len() as int) =~= s);
            assert(pat[pat.len() - 1] == c);
        }
        let rest = s.skip(pat.len() as int);
        assert(rest.last() == c);
        lemma_replace_keeps_last(rest, pat, with, c);
    } else if s.len() == 1 {
        assert(s.skip(1).len() == 0);
        assert(spec_replace(s.skip(1), pat, with) =~= Seq::<char>::empty());
        assert(spec_replace(s, pat, with) =~= seq![s[0]]);
    } else {
        let rest = s.skip(1);
        assert(rest.last() == c);
        lemma_replace_keeps_last(rest, pat, with, c);
    }
}


/// A word of lowercase ASCII letters is its own trimmed and lowercase form.
pub proof fn lemma_lowercase_word(s: Seq<char>)
    requires
        s.len() > 0,
        forall|i: int| 0 <= i < s.len() ==> 'a' <= #[trigger] s[i] <= 'z',
    ensures
        spec_trim(s) == s,
        spec_lowercase(s) == s,
        spec_trim(spec_lowercase(s)) == s,
        spec_lowercase(spec_trim(s)) == s,
{
    assert(!spec_is_whitespace(s[0]));
    assert(!spec_is_whitespace(s.last()));
    assert(spec_trim_start(s) == s);
    assert(spec_trim_end(s) == s);
    assert(spec_all_ascii(s));
    assert(spec_ascii_lowercase(s) =~= s);
}


/// A string that neither starts nor ends with whitespace is its own trimmed
/// form.
pub proof fn lemma_trim_word(s: Seq<char>)
    requires
        s.len() > 0,
        !spec_is_whitespace(s[0]),
        !spec_is_whitespace(s.last()),
    ensures
        spec_trim(s) == s,
{
    assert(spec_trim_start(s) == s);
    assert(spec_trim_end(s) == s);
}


/// A number that tells apart the names this library looks up: the length,
/// the fourth character and the last one.
pub open spec fn spec_key_code(k: Seq<char>) -> int {
    k.len() * 65536 + (k[3] as u32) * 256 + (k[k.len() - 1] as u32)
}

/// An ASCII name that neither starts nor ends with whitespace, in either
/// case, keeps its lowercase form when trimmed, before or after lowering.
pub proof fn lemma_name_key(s: Seq<char>)
    requires
        s.len() > 0,
        spec_all_ascii(s),
        !spec_is_whitespace(s[0]),
        !spec_is_whitespace(s.last()),
        !spec_is_whitespace(spec_ascii_lower_char(s[0])),
        !spec_is_whitespace(spec_ascii_lower_char(s.last())),
    ensures
        spec_trim(s) == s,
        spec_lowercase(s) == spec_ascii_lowercase(s),
        spec_trim(spec_lowercase(s)) == spec_ascii_lowercase(s),
        spec_lowercase(spec_trim(s)) == spec_ascii_lowercase(s),
{
    lemma_trim_word(s);
    let l = spec_lowercase(s);
    assert(l[0] == spec_ascii_lower_char(s[0]));
    assert(l.last() == spec_ascii_lower_char(s.last()));
    lemma_trim_word(l);
}

} // verus!
