//! Parsing of entity property values: whitespace-separated tokens, decimal
//! integers, colors, and typed lookups in an entity's property map.
use vstd::prelude::*;
use crate::misc::Color32;
use crate::text::{chars_of, str_eq};
use crate::cvar::{lemma_decimal_reads_back, spec_decimal};

verus! {

/// Whether `c` has the Unicode `White_Space` property (what
/// `char::is_whitespace` tests).
pub open spec fn spec_is_whitespace(c: char) -> bool {
    ||| '\t' <= c <= '\r'
    ||| c == ' '
    ||| c == '\u{85}'
    ||| c == '\u{a0}'
    ||| c == '\u{1680}'
    ||| '\u{2000}' <= c <= '\u{200a}'
    ||| c == '\u{2028}'
    ||| c == '\u{2029}'
    ||| c == '\u{202f}'
    ||| c == '\u{205f}'
    ||| c == '\u{3000}'
}

pub fn is_whitespace(c: char) -> (r: bool)
    ensures
        r == spec_is_whitespace(c),
{
    ('\t' <= c && c <= '\r') || c == ' ' || c == '\u{85}' || c == '\u{a0}' || c == '\u{1680}'
        || ('\u{2000}' <= c && c <= '\u{200a}') || c == '\u{2028}' || c == '\u{2029}'
        || c == '\u{202f}' || c == '\u{205f}' || c == '\u{3000}'
}

/// The maximal runs of non-whitespace characters of `s`, in order.
pub open spec fn spec_split_whitespace(s: Seq<char>) -> Seq<Seq<char>>
    decreases s.len(),
{
    if s.len() == 0 {
        Seq::empty()
    } else {
        let rest = spec_split_whitespace(s.drop_last());
        let c = s.last();
        if spec_is_whitespace(c) {
            rest
        } else if s.len() >= 2 && !spec_is_whitespace(s[s.len() - 2]) {
            rest.update(rest.len() - 1, rest.last().push(c))
        } else {
            rest.push(seq![c])
        }
    }
}

/// A text that ends with a non-whitespace character has at least one token.
proof fn lemma_split_nonempty(s: Seq<char>)
    requires
        s.len() > 0,
        !spec_is_whitespace(s.last()),
    ensures
        spec_split_whitespace(s).len() > 0,
    decreases s.len(),
{
    if s.len() >= 2 && !spec_is_whitespace(s[s.len() - 2]) {
        let t = s.drop_last();
        assert(t.last() == s[s.len() - 2]);
        lemma_split_nonempty(t);
    }
}

/// Splits `s` into its whitespace-separated tokens.
pub fn split_whitespace(s: &str) -> (tokens: Vec<Vec<char>>)
    ensures
        tokens@.len() == spec_split_whitespace(s@).len(),
        forall|i: int| 0 <= i < tokens@.len() ==> #[trigger] tokens@[i]@ == spec_split_whitespace(s@)[i],
{
    let chars = chars_of(s);
    let mut tokens: Vec<Vec<char>> = Vec::new();
    let mut i: usize = 0;
    while i < chars.len()
        invariant
            chars@ == s@,
            i <= chars@.len(),
            tokens@.len() == spec_split_whitespace(chars@.take(i as int)).len(),
            forall|j: int| 0 <= j < tokens@.len() ==>
                #[trigger] tokens@[j]@ == spec_split_whitespace(chars@.take(i as int))[j],
        decreases chars@.len() - i,
    {
        let c = chars[i];
        let ghost prefix = chars@.take(i as int);
        let ghost next = chars@.take(i + 1);
        assert(next.drop_last() =~= prefix);
        assert(next.last() == c);
        if is_whitespace(c) {
        } else if i >= 1 && !is_whitespace(chars[i - 1]) {
            assert(next[next.len() - 2] == chars@[i - 1]);
            proof {
                assert(prefix.last() == chars@[i - 1]);
                lemma_split_nonempty(prefix);
            }
            let mut last = tokens.pop().unwrap();
            last.push(c);
            tokens.push(last);
        } else {
            tokens.push(vec![c]);
            assert(tokens@.last()@ =~= seq![c]);
        }
        i = i + 1;
        assert forall|j: int| 0 <= j < tokens@.len() implies
            #[trigger] tokens@[j]@ == spec_split_whitespace(chars@.take(i as int))[j] by {
        }
    }
    assert(chars@.take(i as int) =~= s@);
    tokens
}

pub open spec fn spec_is_digit(c: char) -> bool {
    '0' <= c <= '9'
}

pub open spec fn spec_all_digits(d: Seq<char>) -> bool {
    forall|i: int| 0 <= i < d.len() ==> spec_is_digit(#[trigger] d[i])
}

/// The value of a run of decimal digits.
pub open spec fn spec_digits_value(d: Seq<char>) -> int
    decreases d.len(),
{
    if d.len() == 0 {
        0
    } else {
        10 * spec_digits_value(d.drop_last()) + (d.last() as int - '0' as int)
    }
}

/// The value of a prefix of digits is at most that of the whole run.
proof fn lemma_digits_value_mono(d: Seq<char>, k: int)
    requires
        spec_all_digits(d),
        0 <= k <= d.len(),
    ensures
        0 <= spec_digits_value(d.take(k)) <= spec_digits_value(d),
    decreases d.len(),
{
    if d.len() > 0 {
        let t = d.drop_last();
        assert(spec_all_digits(t)) by {
            assert forall|i: int| 0 <= i < t.len() implies spec_is_digit(#[trigger] t[i]) by {
                assert(t[i] == d[i]);
            }
        }
        assert(spec_is_digit(d[d.len() - 1]));
        if k == d.len() {
            assert(d.take(k) =~= d);
            lemma_digits_value_mono(t, t.len() as int);
            assert(t.take(t.len() as int) =~= t);
        } else {
            lemma_digits_value_mono(t, k);
            assert(t.take(k) =~= d.take(k));
            lemma_digits_value_mono(t, t.len() as int);
            assert(t.take(t.len() as int) =~= t);
        }
    }
}

/// The digits of an unsigned number: the text without one leading `+`.
pub open spec fn spec_unsigned_digits(t: Seq<char>) -> Seq<char> {
    if t.len() > 0 && t[0] == '+' { t.drop_first() } else { t }
}

/// What `str::parse` gives for an unsigned integer type whose largest value
/// is `max`: an optional `+`, then one or more decimal digits, with a value
/// of at most `max`.
pub open spec fn spec_parse_unsigned(t: Seq<char>, max: int) -> Option<int> {
    let d = spec_unsigned_digits(t);
    if d.len() == 0 || !spec_all_digits(d) || spec_digits_value(d) > max {
        None
    } else {
        Some(spec_digits_value(d))
    }
}

/// Parses the digits `t[start..]` into a value of at most `max`.
fn parse_digits(t: &Vec<char>, start: usize, max: u64) -> (r: Option<u64>)
    requires
        start <= t@.len(),
        max <= 0x1_0000_0000,
    ensures
        ({
            let d = t@.subrange(start as int, t@.len() as int);
            &&& r is Some <==> (d.len() > 0 && spec_all_digits(d) && spec_digits_value(d) <= max)
            &&& r matches Some(v) ==> v == spec_digits_value(d)
        }),
{
    let ghost d = t@.subrange(start as int, t@.len() as int);
    if start == t.len() {
        return None;
    }
    let mut acc: u64 = 0;
    let mut i: usize = start;
    while i < t.len()
        invariant
            start <= i <= t@.len(),
            d == t@.subrange(start as int, t@.len() as int),
            max <= 0x1_0000_0000,
            acc <= max,
            spec_all_digits(d.take(i - start)),
            acc == spec_digits_value(d.take(i - start)),
        decreases t@.len() - i,
    {
        let c = t[i];
        let ghost k = i - start;
        assert(d[k] == c);
        if !('0' <= c && c <= '9') {
            return None;
        }
        let digit = (c as u32 - '0' as u32) as u64;
        let next = acc * 10 + digit;
        assert(d.take(k + 1).drop_last() =~= d.take(k));
        assert(spec_all_digits(d.take(k + 1))) by {
            assert forall|j: int| 0 <= j < k + 1 implies spec_is_digit(#[trigger] d.take(k + 1)[j]) by {
                if j < k {
                    assert(d.take(k + 1)[j] == d.take(k)[j]);
                }
            }
        }
        if next > max {
            proof {
                if spec_all_digits(d) {
                    lemma_digits_value_mono(d, k + 1);
                }
            }
            return None;
        }
        acc = next;
        i = i + 1;
    }
    assert(d.take(i - start) =~= d);
    Some(acc)
}

/// Parses an unsigned decimal integer of at most `max`, as `str::parse` does.
fn parse_unsigned(t: &Vec<char>, max: u64) -> (r: Option<u64>)
    requires
        max <= 0x1_0000_0000,
    ensures
        r is Some <==> spec_parse_unsigned(t@, max as int) is Some,
        r matches Some(v) ==> spec_parse_unsigned(t@, max as int) == Some(v as int),
{
    let start: usize = if t.len() > 0 && t[0] == '+' { 1 } else { 0 };
    assert(spec_unsigned_digits(t@) =~= t@.subrange(start as int, t@.len() as int));
    parse_digits(t, start, max)
}

/// What `str::parse::<i32>` gives: an optional sign, then one or more
/// decimal digits, with a value inside the range of `i32`.
pub open spec fn spec_parse_i32(t: Seq<char>) -> Option<i32> {
    if t.len() > 0 && t[0] == '-' {
        let d = t.drop_first();
        if d.len() == 0 || !spec_all_digits(d) || spec_digits_value(d) > 0x8000_0000 {
            None
        } else {
            Some((0 - spec_digits_value(d)) as i32)
        }
    } else {
        match spec_parse_unsigned(t, 0x7fff_ffff) {
            Some(v) => Some(v as i32),
            None => None,
        }
    }
}

/// Parses a signed decimal `i32`, as `str::parse` does.
fn parse_i32_chars(t: &Vec<char>) -> (r: Option<i32>)
    ensures
        r == spec_parse_i32(t@),
{
    if t.len() > 0 && t[0] == '-' {
        assert(t@.drop_first() =~= t@.subrange(1, t@.len() as int));
        match parse_digits(t, 1, 0x8000_0000) {
            Some(v) => Some((0 - (v as i64)) as i32),
            None => None,
        }
    } else {
        match parse_unsigned(t, 0x7fff_ffff) {
            Some(v) => Some(v as i32),
            None => None,
        }
    }
}

/// What `str::parse::<bool>` gives: exactly `true` or `false`.
pub open spec fn spec_parse_bool(t: Seq<char>) -> Option<bool> {
    if t == seq!['t', 'r', 'u', 'e'] {
        Some(true)
    } else if t == seq!['f', 'a', 'l', 's', 'e'] {
        Some(false)
    } else {
        None
    }
}

fn parse_bool_chars(t: &Vec<char>) -> (r: Option<bool>)
    ensures
        r == spec_parse_bool(t@),
{
    if t.len() == 4 && t[0] == 't' && t[1] == 'r' && t[2] == 'u' && t[3] == 'e' {
        assert(t@ =~= seq!['t', 'r', 'u', 'e']);
        Some(true)
    } else if t.len() == 5 && t[0] == 'f' && t[1] == 'a' && t[2] == 'l' && t[3] == 's' && t[4] == 'e' {
        assert(t@ =~= seq!['f', 'a', 'l', 's', 'e']);
        Some(false)
    } else {
        assert(t@ != seq!['t', 'r', 'u', 'e'] && t@ != seq!['f', 'a', 'l', 's', 'e']) by {
            if t@ == seq!['t', 'r', 'u', 'e'] { assert(t@.len() == 4); assert(t@[3] == 'e'); }
            if t@ == seq!['f', 'a', 'l', 's', 'e'] { assert(t@.len() == 5); assert(t@[4] == 'e'); }
        }
        None
    }
}

/// Parses `s` as a `bool`, as `str::parse` does.
pub fn parse_bool(s: &str) -> (r: Option<bool>)
    ensures
        r == spec_parse_bool(s@),
{
    parse_bool_chars(&chars_of(s))
}

/// Parses `s` as an `i32`, as `str::parse` does.
pub fn parse_i32(s: &str) -> (r: Option<i32>)
    ensures
        r == spec_parse_i32(s@),
{
    parse_i32_chars(&chars_of(s))
}

/// Parses `s` as a `u8`, as `str::parse` does.
pub fn parse_u8(s: &str) -> (r: Option<u8>)
    ensures
        r is Some <==> spec_parse_unsigned(s@, 255) is Some,
        r matches Some(v) ==> spec_parse_unsigned(s@, 255) == Some(v as int),
{
    match parse_unsigned(&chars_of(s), 255) {
        Some(v) => Some(v as u8),
        None => None,
    }
}

/// Parses `s` as a `u32`, as `str::parse` does.
pub fn parse_u32(s: &str) -> (r: Option<u32>)
    ensures
        r is Some <==> spec_parse_unsigned(s@, 0xffff_ffff) is Some,
        r matches Some(v) ==> spec_parse_unsigned(s@, 0xffff_ffff) == Some(v as int),
{
    match parse_unsigned(&chars_of(s), 0xffff_ffff) {
        Some(v) => Some(v as u32),
        None => None,
    }
}

/// Parses a color given as four whitespace-separated decimal channels
/// `r g b a`, each from 0 to 255.
pub open spec fn spec_parse_color32(s: Seq<char>) -> Option<Color32> {
    let t = spec_split_whitespace(s);
    if t.len() != 4 {
        None
    } else {
        let r = spec_parse_unsigned(t[0], 255);
        let g = spec_parse_unsigned(t[1], 255);
        let b = spec_parse_unsigned(t[2], 255);
        let a = spec_parse_unsigned(t[3], 255);
        if r is Some && g is Some && b is Some && a is Some {
            Some(Color32 { r: r->0 as u8, g: g->0 as u8, b: b->0 as u8, a: a->0 as u8 })
        } else {
            None
        }
    }
}

/// A token (a non-empty run without whitespace) is split into itself.
proof fn lemma_split_token(t: Seq<char>)
    requires
        t.len() > 0,
        forall|i: int| 0 <= i < t.len() ==> !spec_is_whitespace(#[trigger] t[i]),
    ensures
        spec_split_whitespace(t) == seq![t],
    decreases t.len(),
{
    assert(!spec_is_whitespace(t[t.len() - 1]));
    if t.len() == 1 {
        assert(t.drop_last() =~= Seq::<char>::empty());
        assert(spec_split_whitespace(Seq::<char>::empty()) == Seq::<Seq<char>>::empty());
        assert(seq![t.last()] =~= t);
        assert(Seq::<Seq<char>>::empty().push(seq![t.last()]) =~= seq![t]);
    } else {
        let u = t.drop_last();
        assert(!spec_is_whitespace(t[t.len() - 2]));
        assert forall|i: int| 0 <= i < u.len() implies !spec_is_whitespace(#[trigger] u[i]) by {
            assert(u[i] == t[i]);
        }
        lemma_split_token(u);
        assert(u.last() == t[t.len() - 2]);
        assert(u.push(t.last()) =~= t);
        assert(seq![u].update(0, u.push(t.last())) =~= seq![t]);
    }
}

/// Appending a space and then a token to a text adds that token to its
/// tokens.
proof fn lemma_split_append_token(s: Seq<char>, t: Seq<char>)
    requires
        t.len() > 0,
        forall|i: int| 0 <= i < t.len() ==> !spec_is_whitespace(#[trigger] t[i]),
    ensures
        spec_split_whitespace(s.push(' ') + t) == spec_split_whitespace(s).push(t),
    decreases t.len(),
{
    let x = s.push(' ');
    assert(spec_is_whitespace(' '));
    assert(x.drop_last() =~= s);
    assert(spec_split_whitespace(x) == spec_split_whitespace(s));
    if t.len() == 1 {
        assert((x + t).drop_last() =~= x);
        assert((x + t).last() == t[0]);
        assert(seq![t[0]] =~= t);
    } else {
        let u = t.drop_last();
        lemma_split_append_token(s, u);
        assert((x + t).drop_last() =~= x + u);
        assert((x + t)[(x + t).len() - 2] == u.last());
        assert(u.push(t.last()) =~= t);
        let r = spec_split_whitespace(s).push(u);
        assert(r.update(r.len() - 1, r.last().push(t.last())) =~= spec_split_whitespace(s).push(t));
    }
}

/// Decimal digits are not whitespace.
proof fn lemma_decimal_no_whitespace(n: nat)
    ensures
        forall|i: int| 0 <= i < spec_decimal(n).len() ==> !spec_is_whitespace(#[trigger] spec_decimal(n)[i]),
        spec_decimal(n).len() > 0,
        spec_decimal(n)[0] != '+',
{
    lemma_decimal_reads_back(n);
    assert forall|i: int| 0 <= i < spec_decimal(n).len() implies !spec_is_whitespace(#[trigger] spec_decimal(n)[i]) by {
        assert(spec_is_digit(spec_decimal(n)[i]));
    }
    assert(spec_is_digit(spec_decimal(n)[0]));
}

/// The text of a color, its four channels in decimal separated by spaces
/// in the order red, green, blue, alpha.
pub open spec fn spec_color_text(c: Color32) -> Seq<char> {
    spec_decimal(c.r as nat).push(' ') + spec_decimal(c.g as nat) + seq![' '] + spec_decimal(c.b as nat)
        + seq![' '] + spec_decimal(c.a as nat)
}

/// A color written as its red, green, blue and alpha channels in decimal,
/// separated by spaces, is read back as that color: the channels are read
/// in that order.
pub proof fn law_color_text_reads_back(c: Color32)
    ensures
        spec_parse_color32(spec_color_text(c)) == Some(c),
{
    let dr = spec_decimal(c.r as nat);
    let dg = spec_decimal(c.g as nat);
    let db = spec_decimal(c.b as nat);
    let da = spec_decimal(c.a as nat);
    lemma_decimal_no_whitespace(c.r as nat);
    lemma_decimal_no_whitespace(c.g as nat);
    lemma_decimal_no_whitespace(c.b as nat);
    lemma_decimal_no_whitespace(c.a as nat);
    lemma_decimal_reads_back(c.r as nat);
    lemma_decimal_reads_back(c.g as nat);
    lemma_decimal_reads_back(c.b as nat);
    lemma_decimal_reads_back(c.a as nat);
    lemma_split_token(dr);
    let x1 = dr.push(' ') + dg;
    lemma_split_append_token(dr, dg);
    let x2 = x1.push(' ') + db;
    lemma_split_append_token(x1, db);
    let x3 = x2.push(' ') + da;
    lemma_split_append_token(x2, da);
    assert(x1 + seq![' '] + db =~= x2);
    assert(x2 + seq![' '] + da =~= x3);
    assert(spec_color_text(c) =~= x3);
    let t = spec_split_whitespace(x3);
    assert(t =~= seq![dr, dg, db, da]);
    assert(spec_unsigned_digits(dr) == dr);
    assert(spec_unsigned_digits(dg) == dg);
    assert(spec_unsigned_digits(db) == db);
    assert(spec_unsigned_digits(da) == da);
}

/// Parses `r g b a` (four whitespace-separated integers from 0 to 255).
pub fn parse_color32(src: &str) -> (r: Result<Color32, ()>)
    ensures
        r is Ok <==> spec_parse_color32(src@) is Some,
        r matches Ok(c) ==> spec_parse_color32(src@) == Some(c),
{
    let split = split_whitespace(src);
    if split.len() != 4 {
        return Err(());
    }
    let r = match parse_unsigned(&split[0], 255) {
        Some(v) => v as u8,
        None => return Err(()),
    };
    let g = match parse_unsigned(&split[1], 255) {
        Some(v) => v as u8,
        None => return Err(()),
    };
    let b = match parse_unsigned(&split[2], 255) {
        Some(v) => v as u8,
        None => return Err(()),
    };
    let a = match parse_unsigned(&split[3], 255) {
        Some(v) => v as u8,
        None => return Err(()),
    };
    Ok(Color32::new(r, g, b, a))
}

/// The map of an association list: a later entry for a key replaces an
/// earlier one.
pub open spec fn spec_assoc(s: Seq<(String, String)>) -> Map<Seq<char>, Seq<char>>
    decreases s.len(),
{
    if s.len() == 0 {
        Map::empty()
    } else {
        spec_assoc(s.drop_last()).insert(s.last().0@, s.last().1@)
    }
}

/// Entries after position `k` that do not name `key` do not change its lookup.
proof fn lemma_assoc_suffix(s: Seq<(String, String)>, k: int, key: Seq<char>)
    requires
        0 <= k <= s.len(),
        forall|j: int| k <= j < s.len() ==> (#[trigger] s[j]).0@ != key,
    ensures
        spec_assoc(s).contains_key(key) == spec_assoc(s.take(k)).contains_key(key),
        spec_assoc(s).contains_key(key) ==> spec_assoc(s)[key] == spec_assoc(s.take(k))[key],
    decreases s.len(),
{
    if s.len() == k {
        assert(s.take(k) =~= s);
    } else {
        let t = s.drop_last();
        assert(s[s.len() - 1].0@ != key);
        assert(t.take(k) =~= s.take(k));
        assert forall|j: int| k <= j < t.len() implies (#[trigger] t[j]).0@ != key by {
            assert(t[j] == s[j]);
        }
        lemma_assoc_suffix(t, k, key);
    }
}

/// The key/value properties of one map entity.
pub struct PropMap {
    entries: Vec<(String, String)>,
}

impl View for PropMap {
    type V = Map<Seq<char>, Seq<char>>;

    closed spec fn view(&self) -> Map<Seq<char>, Seq<char>> {
        spec_assoc(self.entries@)
    }
}

impl PropMap {
    pub fn new() -> (m: PropMap)
        ensures
            m@ == Map::<Seq<char>, Seq<char>>::empty(),
    {
        PropMap { entries: Vec::new() }
    }

    /// Sets the value of `key`, replacing any earlier one.
    pub fn insert(&mut self, key: String, value: String)
        ensures
            final(self)@ == old(self)@.insert(key@, value@),
    {
        let ghost k = key@;
        let ghost v = value@;
        self.entries.push((key, value));
        assert(self.entries@.drop_last() =~= old(self).entries@);
    }

    /// The value of `key`, if the entity has it.
    pub fn get(&self, key: &str) -> (r: Option<&String>)
        ensures
            r is Some <==> self@.contains_key(key@),
            r matches Some(v) ==> v@ == self@[key@],
    {
        let mut k: usize = self.entries.len();
        while k > 0
            invariant
                k <= self.entries@.len(),
                forall|j: int| k <= j < self.entries@.len() ==> (#[trigger] self.entries@[j]).0@ != key@,
            decreases k,
        {
            let entry = &self.entries[k - 1];
            if str_eq(entry.0.as_str(), key) {
                proof {
                    lemma_assoc_suffix(self.entries@, k as int, key@);
                    assert(self.entries@.take(k as int).drop_last() =~= self.entries@.take(k - 1));
                    assert(self.entries@.take(k as int).last() == self.entries@[k - 1]);
                }
                return Some(&entry.1);
            }
            k = k - 1;
        }
        proof {
            lemma_assoc_suffix(self.entries@, 0, key@);
            assert(self.entries@.take(0) =~= Seq::<(String, String)>::empty());
        }
        None
    }
}

/// A type that an entity property can be parsed into.
pub trait PropValue: Sized {
    /// Whether `s` is the text of some value.
    spec fn spec_parses(s: Seq<char>) -> bool;

    /// Whether `v` is the value that `s` denotes.
    spec fn spec_parsed(s: Seq<char>, v: Self) -> bool;

    fn from_prop(s: &str) -> (r: Option<Self>)
        ensures
            r is Some <==> Self::spec_parses(s@),
            r matches Some(v) ==> Self::spec_parsed(s@, v);
}

impl PropValue for bool {
    open spec fn spec_parses(s: Seq<char>) -> bool {
        spec_parse_bool(s) is Some
    }

    open spec fn spec_parsed(s: Seq<char>, v: bool) -> bool {
        spec_parse_bool(s) == Some(v)
    }

    fn from_prop(s: &str) -> (r: Option<bool>) {
        parse_bool(s)
    }
}

impl PropValue for i32 {
    open spec fn spec_parses(s: Seq<char>) -> bool {
        spec_parse_i32(s) is Some
    }

    open spec fn spec_parsed(s: Seq<char>, v: i32) -> bool {
        spec_parse_i32(s) == Some(v)
    }

    fn from_prop(s: &str) -> (r: Option<i32>) {
        parse_i32(s)
    }
}

impl PropValue for u8 {
    open spec fn spec_parses(s: Seq<char>) -> bool {
        spec_parse_unsigned(s, 255) is Some
    }

    open spec fn spec_parsed(s: Seq<char>, v: u8) -> bool {
        spec_parse_unsigned(s, 255) == Some(v as int)
    }

    fn from_prop(s: &str) -> (r: Option<u8>) {
        parse_u8(s)
    }
}

impl PropValue for u32 {
    open spec fn spec_parses(s: Seq<char>) -> bool {
        spec_parse_unsigned(s, 0xffff_ffff) is Some
    }

    open spec fn spec_parsed(s: Seq<char>, v: u32) -> bool {
        spec_parse_unsigned(s, 0xffff_ffff) == Some(v as int)
    }

    fn from_prop(s: &str) -> (r: Option<u32>) {
        match parse_unsigned(&chars_of(s), 0xffff_ffff) {
            Some(v) => Some(v as u32),
            None => None,
        }
    }
}

impl PropValue for String {
    open spec fn spec_parses(s: Seq<char>) -> bool {
        true
    }

    open spec fn spec_parsed(s: Seq<char>, v: String) -> bool {
        v@ == s
    }

    fn from_prop(s: &str) -> (r: Option<String>) {
        Some(s.to_owned())
    }
}

/// The property `prop_name` parsed as a `T`, or `default_value` when the
/// entity lacks it.
pub fn parse_prop<T: PropValue>(props: &PropMap, prop_name: &str, default_value: T) -> (r: T)
    requires
        props@.contains_key(prop_name@) ==> T::spec_parses(props@[prop_name@]),
    ensures
        props@.contains_key(prop_name@) ==> T::spec_parsed(props@[prop_name@], r),
        !props@.contains_key(prop_name@) ==> r == default_value,
{
    match props.get(prop_name) {
        Some(value) => T::from_prop(value.as_str()).unwrap(),
        None => default_value,
    }
}

/// Whether a model reference (`*` followed by a 1-based index) can be
/// turned into an index: its first character is a single byte, the rest is
/// a nonzero `i32`.
pub open spec fn spec_modelindex_ok(s: Seq<char>) -> bool {
    &&& s.len() > 0
    &&& (s[0] as u32) < 0x80
    &&& spec_parse_i32(s.drop_first()) is Some
    &&& spec_parse_i32(s.drop_first())->0 != 0
}

/// The 0-based submodel index named by a model reference such as `*3`.
pub open spec fn spec_modelindex(s: Seq<char>) -> int {
    (spec_parse_i32(s.drop_first())->0 as usize) - 1
}

/// The submodel index named by the property `prop_name` (`*N` names
/// submodel `N - 1`), or `default_value` when the entity lacks it.
pub fn parse_prop_modelindex(props: &PropMap, prop_name: &str, default_value: usize) -> (r: usize)
    requires
        props@.contains_key(prop_name@) ==> spec_modelindex_ok(props@[prop_name@]),
    ensures
        props@.contains_key(prop_name@) ==> r == spec_modelindex(props@[prop_name@]),
        !props@.contains_key(prop_name@) ==> r == default_value,
{
    match props.get(prop_name) {
        Some(value) => {
            let chars = chars_of(value.as_str());
            let mut rest: Vec<char> = Vec::new();
            let mut i: usize = 1;
            while i < chars.len()
                invariant
                    1 <= i <= chars@.len(),
                    rest@ == chars@.subrange(1, i as int),
                decreases chars@.len() - i,
            {
                rest.push(chars[i]);
                i = i + 1;
                assert(rest@ =~= chars@.subrange(1, i as int));
            }
            assert(rest@ =~= chars@.drop_first());
            let v = parse_i32_chars(&rest).unwrap();
            let u = v as usize;
            assert(u != 0) by (bit_vector)
                requires v != 0i32, u == v as usize;
            u - 1
        },
        None => default_value,
    }
}

/// The text of the property `prop_name`, or `default_value` when the entity
/// lacks it.
pub fn get_prop_str<'a>(props: &'a PropMap, prop_name: &str, default_value: &'a str) -> (r: &'a str)
    ensures
        props@.contains_key(prop_name@) ==> r@ == props@[prop_name@],
        !props@.contains_key(prop_name@) ==> r@ == default_value@,
{
    match props.get(prop_name) {
        Some(value) => value.as_str(),
        None => default_value,
    }
}

} // verus!
