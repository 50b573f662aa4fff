//! Byte-to-text helpers shared by the file parsers.
use vstd::prelude::*;
use vstd::utf8::{valid_utf8, encode_utf8};
use vstd::string::StringExecFns;

verus! {

/// Length of the NUL-terminated prefix of `w` (all of `w` when it holds no NUL).
pub open spec fn spec_cstr_len(w: Seq<u8>) -> nat
    decreases w.len(),
{
    if w.len() == 0 || w[0] == 0 {
        0
    } else {
        1 + spec_cstr_len(w.drop_first())
    }
}

/// The bytes of `w` before its first NUL.
pub open spec fn spec_cstr(w: Seq<u8>) -> Seq<u8> {
    w.take(spec_cstr_len(w) as int)
}

/// A position that is either the end of `w` or its first NUL is the C-string length.
pub proof fn lemma_cstr_len(w: Seq<u8>, i: int)
    requires
        0 <= i <= w.len(),
        forall|j: int| 0 <= j < i ==> w[j] != 0,
        i == w.len() || w[i] == 0,
    ensures
        spec_cstr_len(w) == i,
    decreases i,
{
    if i > 0 {
        let t = w.drop_first();
        assert forall|j: int| 0 <= j < i - 1 implies t[j] != 0 by {
            assert(t[j] == w[j + 1]);
        }
        if i - 1 < t.len() {
            assert(t[i - 1] == w[i]);
        }
        lemma_cstr_len(t, i - 1);
    }
}

/// `String::from_utf8`.
/// Trusted: per its documentation it succeeds exactly when the bytes are valid
/// UTF-8, and the string it returns holds exactly those bytes.
#[verifier::external_body]
pub(crate) fn string_from_utf8(bytes: Vec<u8>) -> (r: Option<String>)
    ensures
        r is Some <==> valid_utf8(bytes@),
        r matches Some(s) ==> encode_utf8(s@) == bytes@,
{
    String::from_utf8(bytes).ok()
}

/// Reads the NUL-terminated text stored in the `n` bytes at `p`.
/// Fails when that text is not valid UTF-8.
pub fn read_cstr(data: &[u8], p: usize, n: usize) -> (r: Option<String>)
    requires
        p + n <= data@.len(),
    ensures
        r is Some <==> valid_utf8(spec_cstr(data@.subrange(p as int, p + n))),
        r matches Some(s) ==> encode_utf8(s@) == spec_cstr(data@.subrange(p as int, p + n)),
{
    let ghost w = data@.subrange(p as int, p + n);
    let mut bytes: Vec<u8> = Vec::new();
    let mut i: usize = 0;
    while i < n && data[p + i] != 0
        invariant
            i <= n,
            p + n <= data.len(),
            w == data@.subrange(p as int, p + n),
            bytes@ == w.take(i as int),
            forall|j: int| 0 <= j < i ==> w[j] != 0,
        decreases n - i,
    {
        bytes.push(data[p + i]);
        i = i + 1;
        assert(bytes@ =~= w.take(i as int));
    }
    proof { lemma_cstr_len(w, i as int); }
    string_from_utf8(bytes)
}

/// The characters of `s`.
pub fn chars_of(s: &str) -> (v: Vec<char>)
    ensures
        v@ == s@,
{
    broadcast use vstd::string::group_string_axioms;
    let mut v: Vec<char> = Vec::new();
    for c in it: s.chars()
        invariant
            it.seq() == s@,
            v@ == it.seq().take(it.index() as int),
    {
        v.push(c);
        assert(v@ =~= it.seq().take(it.index() + 1));
    }
    assert(v@ =~= s@);
    v
}

/// Compares two strings by their characters.
pub fn str_eq(a: &str, b: &str) -> (r: bool)
    ensures
        r == (a@ == b@),
{
    let x = a.as_bytes();
    let y = b.as_bytes();
    proof {
        vstd::utf8::encode_utf8_decode_utf8(a@);
        vstd::utf8::encode_utf8_decode_utf8(b@);
    }
    if x.len() != y.len() {
        return false;
    }
    let mut i: usize = 0;
    while i < x.len()
        invariant
            x@ == encode_utf8(a@),
            y@ == encode_utf8(b@),
            x.len() == y.len(),
            i <= x.len(),
            forall|j: int| 0 <= j < i ==> x@[j] == y@[j],
        decreases x.len() - i,
    {
        if x[i] != y[i] {
            assert(x@ != y@);
            return false;
        }
        i = i + 1;
    }
    assert(x@ =~= y@);
    true
}

/// Whether `s` ends with `suffix`.
pub fn ends_with(s: &str, suffix: &str) -> (r: bool)
    ensures
        r == (suffix@.len() <= s@.len() && s@.subrange(s@.len() - suffix@.len(), s@.len() as int) == suffix@),
{
    let a = chars_of(s);
    let b = chars_of(suffix);
    if b.len() > a.len() {
        return false;
    }
    let off = a.len() - b.len();
    let mut i: usize = 0;
    while i < b.len()
        invariant
            a@ == s@,
            b@ == suffix@,
            off + b.len() == a.len(),
            i <= b.len(),
            forall|j: int| 0 <= j < i ==> a@[off + j] == b@[j],
        decreases b@.len() - i,
    {
        if a[off + i] != b[i] {
            assert(s@.subrange(off as int, s@.len() as int)[i as int] != suffix@[i as int]);
            return false;
        }
        i = i + 1;
    }
    assert(s@.subrange(off as int, s@.len() as int) =~= suffix@);
    true
}

/// The text of `a` followed by that of `b`.
pub(crate) fn concat(a: &str, b: &str) -> (r: String)
    ensures
        r@ == a@ + b@,
{
    let mut s = a.to_owned();
    s.append(b);
    s
}

} // verus!
