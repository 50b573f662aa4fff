//! Splitting the entity lump into entities and reading their properties.
//!
//! The lump holds blocks of the form `{ "key" "value" ... }`. Each block
//! between a `{` and the next `}` is one entity; its `"key" "value"` lines
//! are matched by a regular expression.
use vstd::prelude::*;
use vstd::utf8::{valid_utf8, encode_utf8, decode_utf8};
use crate::bsp::bspfile::EntityLump;
use crate::parse_utils::PropMap;
use crate::text::string_from_utf8;

verus! {

/// The pattern that matches one `"key" "value"` property line.
pub open spec fn entity_kv_pattern() -> Seq<char> {
    "(\"(.*)\"[ \t]+\"(.*)\")"@
}

/// The (second group, third group) texts of the successive non-overlapping
/// matches of the regular expression `pattern` in `text`.
pub uninterp spec fn regex_pair_captures(pattern: Seq<char>, text: Seq<char>) -> Seq<(Seq<char>, Seq<char>)>;

/// `regex::Regex::new(pattern)` followed by `captures_iter(text)`, keeping
/// the texts of groups 2 and 3 of each match, in the order of the matches.
/// Trusted: the result is named, not described; the pattern is the entity
/// property pattern, which compiles and has exactly three groups.
#[verifier::external_body]
fn captures_pairs(pattern: &str, text: &str) -> (r: Vec<(String, String)>)
    requires
        pattern@ == entity_kv_pattern(),
    ensures
        r@.map_values(|p: (String, String)| (p.0@, p.1@)) == regex_pair_captures(pattern@, text@),
{
    let re = regex::Regex::new(pattern).unwrap();
    re.captures_iter(text).map(|c| {
        let (_, [_, key, value]) = c.extract();
        (key.to_string(), value.to_string())
    }).collect()
}

/// The map of a list of properties: a later entry for a key replaces an
/// earlier one.
pub open spec fn spec_kv_map(s: Seq<(Seq<char>, Seq<char>)>) -> Map<Seq<char>, Seq<char>>
    decreases s.len(),
{
    if s.len() == 0 {
        Map::empty()
    } else {
        spec_kv_map(s.drop_last()).insert(s.last().0, s.last().1)
    }
}

/// Where the entity that is open after the first `n` bytes starts: just after
/// the last `{` among them (0 when there is none).
pub open spec fn spec_open_start(b: Seq<u8>, n: int) -> int
    decreases n,
{
    if n <= 0 {
        0
    } else if b[n - 1] == 0x7b {
        n
    } else {
        spec_open_start(b, n - 1)
    }
}

/// The spans `(start, end)` of the entities closed within the first `n`
/// bytes: each `}` at index `i` closes the span from the last `{` before it
/// up to index `i - 1`, that index excluded.
pub open spec fn spec_brace_spans(b: Seq<u8>, n: int) -> Seq<(int, int)>
    decreases n,
{
    if n <= 0 {
        Seq::empty()
    } else if b[n - 1] == 0x7d {
        spec_brace_spans(b, n - 1).push((spec_open_start(b, n - 1), n - 2))
    } else {
        spec_brace_spans(b, n - 1)
    }
}

/// A span can be cut out of the text: it does not run backwards and its
/// bytes are whole characters.
pub open spec fn spec_span_ok(b: Seq<u8>, s: (int, int)) -> bool {
    0 <= s.0 <= s.1 <= b.len() && valid_utf8(b.subrange(s.0, s.1))
}

/// Every entity closed within the first `n` bytes can be cut out of the text.
pub open spec fn spec_braces_ok(b: Seq<u8>, n: int) -> bool
    decreases n,
{
    if n <= 0 {
        true
    } else {
        spec_braces_ok(b, n - 1) && (b[n - 1] == 0x7d ==> spec_span_ok(b, (spec_open_start(b, n - 1), n - 2)))
    }
}

/// The text of the entity at span `s`.
pub open spec fn spec_entity_text(b: Seq<u8>, s: (int, int)) -> Seq<char> {
    decode_utf8(b.subrange(s.0, s.1))
}

/// The properties of the entity at span `s`.
pub open spec fn spec_entity_props(b: Seq<u8>, s: (int, int)) -> Map<Seq<char>, Seq<char>> {
    spec_kv_map(regex_pair_captures(entity_kv_pattern(), spec_entity_text(b, s)))
}

impl EntityLump {
    /// The bytes of the entity text.
    pub open spec fn spec_bytes(&self) -> Seq<u8> {
        encode_utf8(self.entities@)
    }

    /// The entity spans of the text.
    pub open spec fn spec_spans(&self) -> Seq<(int, int)> {
        spec_brace_spans(self.spec_bytes(), self.spec_bytes().len() as int)
    }

    /// Whether every entity of the text can be cut out of it.
    pub open spec fn spec_can_parse(&self) -> bool {
        spec_braces_ok(self.spec_bytes(), self.spec_bytes().len() as int)
    }

    /// The text of each entity, in the order of the lump, or `None` when a
    /// `}` has no text before it, closes a span that runs backwards, or cuts a
    /// character in two.
    pub fn entity_blocks(&self) -> (r: Option<Vec<String>>)
        ensures
            r is Some <==> self.spec_can_parse(),
            r matches Some(v) ==> v@.len() == self.spec_spans().len() && forall|i: int|
                0 <= i < v@.len() ==> (#[trigger] v@[i])@ == spec_entity_text(self.spec_bytes(), self.spec_spans()[i]),
    {
        let b = self.entities.as_str().as_bytes();
        let ghost bs = self.spec_bytes();
        proof {
            vstd::utf8::encode_utf8_decode_utf8(self.entities@);
        }
        assert(b@ == bs);
        let mut blocks: Vec<String> = Vec::new();
        let mut start: usize = 0;
        let mut idx: usize = 0;
        while idx < b.len()
            invariant
                b@ == bs,
                bs == self.spec_bytes(),
                idx <= b.len(),
                start as int == spec_open_start(bs, idx as int),
                start <= idx,
                spec_braces_ok(bs, idx as int),
                blocks@.len() == spec_brace_spans(bs, idx as int).len(),
                forall|i: int| 0 <= i < blocks@.len() ==> (#[trigger] blocks@[i])@ == spec_entity_text(bs, spec_brace_spans(bs, idx as int)[i]),
            decreases b.len() - idx,
        {
            let ghost spans0 = spec_brace_spans(bs, idx as int);
            if b[idx] == 0x7b {
                start = idx + 1;
            } else if b[idx] == 0x7d {
                if idx == 0 || start > idx - 1 {
                    proof {
                        assert(!spec_span_ok(bs, (spec_open_start(bs, idx as int), idx - 1)));
                        assert(!spec_braces_ok(bs, idx + 1));
                        lemma_not_ok_extends(bs, idx + 1);
                    }
                    return None;
                }
                let end = idx - 1;
                let mut sub: Vec<u8> = Vec::new();
                let mut k: usize = start;
                while k < end
                    invariant
                        b@ == bs,
                        start <= k <= end,
                        end < b.len(),
                        sub@ == bs.subrange(start as int, k as int),
                    decreases end - k,
                {
                    sub.push(b[k]);
                    k = k + 1;
                    assert(sub@ =~= bs.subrange(start as int, k as int));
                }
                match string_from_utf8(sub) {
                    Some(text) => {
                        proof {
                            vstd::utf8::encode_utf8_decode_utf8(text@);
                        }
                        blocks.push(text);
                    }
                    None => {
                        proof {
                            assert(!spec_span_ok(bs, (spec_open_start(bs, idx as int), idx - 1)));
                            assert(!spec_braces_ok(bs, idx + 1));
                            lemma_not_ok_extends(bs, idx + 1);
                        }
                        return None;
                    }
                }
            }
            idx = idx + 1;
            proof {
                let spans1 = spec_brace_spans(bs, idx as int);
                assert forall|i: int| 0 <= i < blocks@.len() implies (#[trigger] blocks@[i])@ == spec_entity_text(bs, spans1[i]) by {
                    if i < spans0.len() {
                        assert(spans1[i] == spans0[i]);
                    }
                }
            }
        }
        Some(blocks)
    }

    /// The properties of each entity, in the order of the lump; a key given
    /// twice in one entity keeps its last value.
    pub fn parse(&self) -> (r: Vec<PropMap>)
        requires
            self.spec_can_parse(),
        ensures
            r@.len() == self.spec_spans().len(),
            forall|i: int| 0 <= i < r@.len() ==> (#[trigger] r@[i])@ == spec_entity_props(self.spec_bytes(), self.spec_spans()[i]),
    {
        let blocks = match self.entity_blocks() {
            Some(v) => v,
            None => {
                return Vec::new();
            },
        };
        let pattern = "(\"(.*)\"[ \t]+\"(.*)\")";
        let mut maps: Vec<PropMap> = Vec::new();
        let mut i: usize = 0;
        while i < blocks.len()
            invariant
                pattern@ == entity_kv_pattern(),
                i <= blocks@.len(),
                blocks@.len() == self.spec_spans().len(),
                forall|j: int| 0 <= j < blocks@.len() ==> (#[trigger] blocks@[j])@ == spec_entity_text(self.spec_bytes(), self.spec_spans()[j]),
                maps@.len() == i,
                forall|j: int| 0 <= j < i ==> (#[trigger] maps@[j])@ == spec_entity_props(self.spec_bytes(), self.spec_spans()[j]),
            decreases blocks@.len() - i,
        {
            let pairs = captures_pairs(pattern, blocks[i].as_str());
            let ghost caps = regex_pair_captures(pattern@, blocks@[i as int]@);
            let mut props = PropMap::new();
            let mut k: usize = 0;
            while k < pairs.len()
                invariant
                    k <= pairs@.len(),
                    pairs@.map_values(|p: (String, String)| (p.0@, p.1@)) == caps,
                    props@ == spec_kv_map(caps.take(k as int)),
                decreases pairs@.len() - k,
            {
                let key = pairs[k].0.clone();
                let value = pairs[k].1.clone();
                props.insert(key, value);
                proof {
                    assert(caps[k as int] == (pairs@[k as int].0@, pairs@[k as int].1@));
                    assert(caps.take(k + 1).drop_last() =~= caps.take(k as int));
                }
                k = k + 1;
            }
            proof {
                assert(caps.take(pairs@.len() as int) =~= caps);
            }
            maps.push(props);
            i = i + 1;
        }
        maps
    }
}

/// A text whose first `n` bytes cannot all be cut out cannot be cut out as a
/// whole.
proof fn lemma_not_ok_extends(b: Seq<u8>, n: int)
    requires
        0 <= n <= b.len(),
        !spec_braces_ok(b, n),
    ensures
        !spec_braces_ok(b, b.len() as int),
{
    if spec_braces_ok(b, b.len() as int) {
        lemma_braces_ok_prefix(b, n, b.len() as int);
    }
}

/// Being able to cut out every entity of the first `m` bytes carries over to
/// the first `n <= m` bytes.
proof fn lemma_braces_ok_prefix(b: Seq<u8>, n: int, m: int)
    requires
        0 <= n <= m,
        spec_braces_ok(b, m),
    ensures
        spec_braces_ok(b, n),
    decreases m - n,
{
    if n < m {
        lemma_braces_ok_prefix(b, n, m - 1);
    }
}

/// The number of `}` bytes among the first `n` bytes of `b`.
pub open spec fn spec_count_closing(b: Seq<u8>, n: int) -> nat
    decreases n,
{
    if n <= 0 {
        0
    } else {
        spec_count_closing(b, n - 1) + if b[n - 1] == 0x7d { 1nat } else { 0nat }
    }
}

/// Every `}` of the text closes exactly one entity: there are as many
/// entity spans as closing braces, and each span ends just before its brace.
pub proof fn law_one_entity_per_brace(b: Seq<u8>, n: int)
    requires
        0 <= n <= b.len(),
    ensures
        spec_brace_spans(b, n).len() == spec_count_closing(b, n),
        forall|i: int| 0 <= i < spec_brace_spans(b, n).len() ==>
            b[(#[trigger] spec_brace_spans(b, n)[i]).1 + 1] == 0x7d,
    decreases n,
{
    if n > 0 {
        law_one_entity_per_brace(b, n - 1);
        let prev = spec_brace_spans(b, n - 1);
        assert forall|i: int| 0 <= i < spec_brace_spans(b, n).len() implies
            b[(#[trigger] spec_brace_spans(b, n)[i]).1 + 1] == 0x7d by {
            if i < prev.len() {
                assert(spec_brace_spans(b, n)[i] == prev[i]);
            }
        }
    }
}

/// Of two properties with the same key in one entity, the later one wins:
/// the map gives the value of the last entry for a key.
pub proof fn law_last_property_wins(s: Seq<(Seq<char>, Seq<char>)>, i: int)
    requires
        0 <= i < s.len(),
        forall|j: int| i < j < s.len() ==> (#[trigger] s[j]).0 != s[i].0,
    ensures
        spec_kv_map(s).contains_key(s[i].0),
        spec_kv_map(s)[s[i].0] == s[i].1,
    decreases s.len(),
{
    if i < s.len() - 1 {
        assert forall|j: int| i < j < s.drop_last().len() implies (#[trigger] s.drop_last()[j]).0 != s.drop_last()[i].0 by {
            assert(s.drop_last()[j] == s[j]);
        }
        law_last_property_wins(s.drop_last(), i);
        assert(s.last() == s[s.len() - 1]);
    }
}

} // verus!
