//! Console variables: named, typed settings with a default value and an
//! optional value set at run time.
//!
//! A float value is held as the bit pattern of its `f32`.
use vstd::prelude::*;
use vstd::arithmetic::power2::{pow2, lemma2_to64, lemma_pow2_strictly_increases, lemma_pow2_pos};
use vstd::bits::{lemma_u32_shr_is_div, lemma_u32_shl_is_mul};
use crate::parse_utils::{parse_bool, parse_i32, spec_parse_bool, spec_parse_i32, spec_all_digits, spec_digits_value, spec_is_digit};
use crate::text::str_eq;

verus! {

/// The value of a console variable.
pub enum CVarValue {
    Bool(bool),
    Int(i32),
    /// The bit pattern of an `f32`.
    Float(u32),
    String(String),
}

/// A console variable value as seen by the contracts.
pub enum CVarValueView {
    Bool(bool),
    Int(i32),
    Float(u32),
    String(Seq<char>),
}

impl View for CVarValue {
    type V = CVarValueView;

    open spec fn view(&self) -> CVarValueView {
        match self {
            CVarValue::Bool(b) => CVarValueView::Bool(*b),
            CVarValue::Int(i) => CVarValueView::Int(*i),
            CVarValue::Float(f) => CVarValueView::Float(*f),
            CVarValue::String(s) => CVarValueView::String(s@),
        }
    }
}

impl CVarValue {
    /// A copy of the value.
    pub fn copy(&self) -> (r: CVarValue)
        ensures
            r == *self,
    {
        match self {
            CVarValue::Bool(b) => CVarValue::Bool(*b),
            CVarValue::Int(i) => CVarValue::Int(*i),
            CVarValue::Float(f) => CVarValue::Float(*f),
            CVarValue::String(s) => CVarValue::String(s.clone()),
        }
    }
}

/// The decimal digit `d` (below 10).
pub open spec fn spec_digit_char(d: nat) -> char {
    if d == 0 { '0' } else if d == 1 { '1' } else if d == 2 { '2' } else if d == 3 { '3' }
    else if d == 4 { '4' } else if d == 5 { '5' } else if d == 6 { '6' } else if d == 7 { '7' }
    else if d == 8 { '8' } else { '9' }
}

/// The decimal digits of `n`, without leading zeros.
pub open spec fn spec_decimal(n: nat) -> Seq<char>
    decreases n,
{
    if n < 10 {
        seq![spec_digit_char(n)]
    } else {
        spec_decimal(n / 10).push(spec_digit_char(n % 10))
    }
}

/// The decimal text of `i`: its digits, after a `-` when it is negative.
pub open spec fn spec_int_text(i: int) -> Seq<char> {
    if i < 0 { seq!['-'] + spec_decimal((-i) as nat) } else { spec_decimal(i as nat) }
}

/// The text of a boolean: `true` or `false`.
pub open spec fn spec_bool_text(b: bool) -> Seq<char> {
    if b { seq!['t', 'r', 'u', 'e'] } else { seq!['f', 'a', 'l', 's', 'e'] }
}

/// The one-character text of the decimal digit `d`.
fn digit_text(d: u32) -> (r: &'static str)
    requires
        d < 10,
    ensures
        r@ == seq![spec_digit_char(d as nat)],
{
    proof {
        reveal_strlit("0");
        reveal_strlit("1");
        reveal_strlit("2");
        reveal_strlit("3");
        reveal_strlit("4");
        reveal_strlit("5");
        reveal_strlit("6");
        reveal_strlit("7");
        reveal_strlit("8");
        reveal_strlit("9");
    }
    if d == 0 { "0" } else if d == 1 { "1" } else if d == 2 { "2" } else if d == 3 { "3" }
    else if d == 4 { "4" } else if d == 5 { "5" } else if d == 6 { "6" } else if d == 7 { "7" }
    else if d == 8 { "8" } else { "9" }
}

/// The decimal digits of `n`.
fn decimal_text(n: u32) -> (r: String)
    ensures
        r@ == spec_decimal(n as nat),
    decreases n,
{
    if n < 10 {
        let mut s = String::new();
        s.append(digit_text(n));
        s
    } else {
        let mut s = decimal_text(n / 10);
        s.append(digit_text(n % 10));
        s
    }
}

/// The decimal text of `i`, as Rust writes an `i32`.
pub fn int_text(i: i32) -> (r: String)
    ensures
        r@ == spec_int_text(i as int),
{
    if i < 0 {
        let wide: i64 = i as i64;
        let m: u32 = (-wide) as u32;
        let mut s = String::new();
        proof { reveal_strlit("-"); }
        s.append("-");
        let d = decimal_text(m);
        s.append(d.as_str());
        s
    } else {
        decimal_text(i as u32)
    }
}

impl CVarValue {
    /// The value as text, as the console shows it: `true` or `false`, the
    /// decimal integer, or the string itself; `None` for a float, which the
    /// caller formats.
    pub fn text(&self) -> (r: Option<String>)
        ensures
            self matches CVarValue::Float(_) ==> r is None,
            self matches CVarValue::Bool(b) ==> r matches Some(t) && t@ == spec_bool_text(*b),
            self matches CVarValue::Int(i) ==> r matches Some(t) && t@ == spec_int_text(*i as int),
            self matches CVarValue::String(v) ==> r matches Some(t) && t@ == v@,
    {
        match self {
            CVarValue::Bool(b) => {
                proof {
                    reveal_strlit("true");
                    reveal_strlit("false");
                }
                Some(String::from_str(if *b { "true" } else { "false" }))
            },
            CVarValue::Int(i) => Some(int_text(*i)),
            CVarValue::Float(_) => None,
            CVarValue::String(v) => Some(v.clone()),
        }
    }
}

impl From<bool> for CVarValue {
    fn from(val: bool) -> (r: CVarValue) {
        CVarValue::Bool(val)
    }
}

impl vstd::std_specs::convert::FromSpecImpl<bool> for CVarValue {
    open spec fn obeys_from_spec() -> bool {
        true
    }

    open spec fn from_spec(val: bool) -> CVarValue {
        CVarValue::Bool(val)
    }
}

impl From<i32> for CVarValue {
    fn from(val: i32) -> (r: CVarValue) {
        CVarValue::Int(val)
    }
}

impl vstd::std_specs::convert::FromSpecImpl<i32> for CVarValue {
    open spec fn obeys_from_spec() -> bool {
        true
    }

    open spec fn from_spec(val: i32) -> CVarValue {
        CVarValue::Int(val)
    }
}

impl From<String> for CVarValue {
    fn from(val: String) -> (r: CVarValue) {
        CVarValue::String(val)
    }
}

impl vstd::std_specs::convert::FromSpecImpl<String> for CVarValue {
    open spec fn obeys_from_spec() -> bool {
        true
    }

    open spec fn from_spec(val: String) -> CVarValue {
        CVarValue::String(val)
    }
}

/// The type of a console variable, given by its default value.
#[derive(Debug, Clone, Copy, PartialEq, Eq, Structural)]
pub enum CVarKind {
    Bool,
    Int,
    Float,
    String,
}

impl CVarKind {
    /// The kind of a value.
    pub open spec fn spec_of(v: CVarValueView) -> CVarKind {
        match v {
            CVarValueView::Bool(_) => CVarKind::Bool,
            CVarValueView::Int(_) => CVarKind::Int,
            CVarValueView::Float(_) => CVarKind::Float,
            CVarValueView::String(_) => CVarKind::String,
        }
    }

    pub open spec fn spec_name(self) -> Seq<char> {
        match self {
            CVarKind::Bool => "bool"@,
            CVarKind::Int => "int"@,
            CVarKind::Float => "float"@,
            CVarKind::String => "string"@,
        }
    }

    /// The name of the kind, as the variable list shows it.
    pub fn name(&self) -> (r: &'static str)
        ensures
            r@ == self.spec_name(),
    {
        match self {
            CVarKind::Bool => "bool",
            CVarKind::Int => "int",
            CVarKind::Float => "float",
            CVarKind::String => "string",
        }
    }
}

/// The value of an `f32` with bit pattern `bits`, truncated toward zero and
/// saturated to the range of `i32`; NaN gives 0. This is what `v as i32`
/// computes.
pub open spec fn spec_f32_bits_to_i32(bits: u32) -> i32 {
    let negative = bits >= 0x8000_0000;
    let e = (bits / 0x80_0000) % 0x100;
    let m = bits % 0x80_0000;
    if e == 0xff && m != 0 {
        0
    } else {
        let mag: int = if e < 127 {
            0
        } else if e >= 150 {
            (m + 0x80_0000) * pow2((e - 150) as nat)
        } else {
            (m + 0x80_0000) as int / pow2((150 - e) as nat) as int
        };
        if !negative {
            if mag > 0x7fff_ffff { i32::MAX } else { mag as i32 }
        } else {
            if mag > 0x8000_0000 { i32::MIN } else { (-mag) as i32 }
        }
    }
}

/// Truncating a float to `i32` is odd in its sign: setting the sign bit of a
/// non-negative value negates the integer it truncates to (as long as that
/// integer is below `i32::MAX`, where the positive side saturates), and a
/// value with the sign bit clear never truncates to a negative integer.
pub proof fn law_f32_to_i32_sign_symmetric(bits: u32)
    requires
        bits < 0x8000_0000,
    ensures
        spec_f32_bits_to_i32(bits) >= 0,
        spec_f32_bits_to_i32(bits) < i32::MAX ==>
            spec_f32_bits_to_i32((bits + 0x8000_0000) as u32) == -spec_f32_bits_to_i32(bits),
{
    let b2 = (bits + 0x8000_0000) as u32;
    assert((b2 / 0x80_0000) % 0x100 == (bits / 0x80_0000) % 0x100 && b2 % 0x80_0000 == bits % 0x80_0000)
        by (nonlinear_arith)
        requires b2 == bits + 0x8000_0000, bits < 0x8000_0000;
    let e = (bits / 0x80_0000) % 0x100;
    let m = bits % 0x80_0000;
    if e >= 150 {
        lemma_pow2_pos((e - 150) as nat);
        assert((m + 0x80_0000) * pow2((e - 150) as nat) >= 0) by (nonlinear_arith)
            requires pow2((e - 150) as nat) > 0, m >= 0;
    } else if e >= 127 {
        lemma_pow2_pos((150 - e) as nat);
        assert((m + 0x80_0000) as int / pow2((150 - e) as nat) as int >= 0) by (nonlinear_arith)
            requires pow2((150 - e) as nat) > 0, m >= 0;
    }
}

/// Converts an `f32`, given by its bit pattern, to `i32` as `v as i32` does.
pub fn f32_bits_to_i32(bits: u32) -> (r: i32)
    ensures
        r == spec_f32_bits_to_i32(bits),
{
    let negative = bits >= 0x8000_0000;
    let e = (bits >> 23) & 0xff;
    let m = bits & 0x7f_ffff;
    assert(((bits >> 23) & 0xff) == (bits / 0x80_0000) % 0x100) by (bit_vector);
    assert((bits & 0x7f_ffff) == bits % 0x80_0000) by (bit_vector);
    if e == 0xff && m != 0 {
        return 0;
    }
    let full: u32 = m + 0x80_0000;
    if e < 127 {
        return 0;
    }
    if e >= 158 {
        proof {
            lemma2_to64();
            if e > 158 {
                lemma_pow2_strictly_increases(8, (e - 150) as nat);
            }
            lemma_big_mag(full as int, (e - 150) as nat);
        }
        return if negative { i32::MIN } else { i32::MAX };
    }
    let mag: u32 = if e >= 150 {
        let s: u32 = e - 150;
        proof {
            lemma2_to64();
            if s < 7 {
                lemma_pow2_strictly_increases(s as nat, 7);
            }
            assert(full * pow2(s as nat) <= 0xff_ffff * 128) by (nonlinear_arith)
                requires full <= 0xff_ffff, pow2(s as nat) <= 128;
            lemma_u32_shl_is_mul(full, s);
        }
        full << s
    } else {
        let s: u32 = 150 - e;
        proof {
            lemma_u32_shr_is_div(full, s);
            lemma_pow2_pos(s as nat);
        }
        full >> s
    };
    assert(mag < 0x8000_0000) by {
        if e < 150 {
            lemma_pow2_pos((150 - e) as nat);
            assert(full as int / pow2((150 - e) as nat) as int <= full) by (nonlinear_arith)
                requires full >= 0, pow2((150 - e) as nat) > 0;
        }
    }
    if negative {
        -(mag as i32)
    } else {
        mag as i32
    }
}

/// A magnitude of at least `2^23 * 2^8` is beyond the range of `i32`.
proof fn lemma_big_mag(full: int, s: nat)
    requires
        full >= 0x80_0000,
        pow2(s) >= 256,
    ensures
        full * pow2(s) > 0x8000_0000 || full * pow2(s) == 0x8000_0000,
{
    assert(full * pow2(s) >= 0x80_0000 * 256) by (nonlinear_arith)
        requires full >= 0x80_0000, pow2(s) >= 256;
}

/// Reading a console variable value as a `T`.
pub trait GetCVar<T> {
    /// Whether the value can be read as a `T`.
    spec fn spec_can_get(&self) -> bool;

    /// The value read as a `T`.
    spec fn spec_get(&self) -> T;

    fn get(&self) -> (r: T)
        requires
            self.spec_can_get(),
        ensures
            r == self.spec_get(),
    ;
}

impl GetCVar<bool> for CVarValue {
    /// A string does not convert to a `bool`.
    open spec fn spec_can_get(&self) -> bool {
        !(self is String)
    }

    /// A number is true when it is not zero (a NaN is not zero).
    open spec fn spec_get(&self) -> bool {
        match self {
            CVarValue::Bool(v) => *v,
            CVarValue::Int(v) => *v != 0,
            CVarValue::Float(v) => *v % 0x8000_0000 != 0,
            CVarValue::String(_) => false,
        }
    }

    fn get(&self) -> (r: bool) {
        match self {
            CVarValue::Bool(v) => *v,
            CVarValue::Int(v) => *v != 0,
            CVarValue::Float(v) => {
                assert(*v & 0x7fff_ffff == *v % 0x8000_0000) by (bit_vector);
                *v & 0x7fff_ffff != 0
            },
            CVarValue::String(_) => false,
        }
    }
}

impl GetCVar<i32> for CVarValue {
    /// A string does not convert to an `i32`.
    open spec fn spec_can_get(&self) -> bool {
        !(self is String)
    }

    /// `true` is 1, `false` 0; a float is truncated and saturated.
    open spec fn spec_get(&self) -> i32 {
        match self {
            CVarValue::Bool(v) => if *v { 1 } else { 0 },
            CVarValue::Int(v) => *v,
            CVarValue::Float(v) => spec_f32_bits_to_i32(*v),
            CVarValue::String(_) => 0,
        }
    }

    fn get(&self) -> (r: i32) {
        match self {
            CVarValue::Bool(v) => if *v { 1 } else { 0 },
            CVarValue::Int(v) => *v,
            CVarValue::Float(v) => f32_bits_to_i32(*v),
            CVarValue::String(_) => 0,
        }
    }
}

/// A console variable.
struct CVar {
    help: String,
    value: Option<CVarValue>,
    default: CVarValue,
}

/// A console variable as seen by the contracts.
pub struct CVarView {
    pub help: Seq<char>,
    pub value: Option<CVarValue>,
    pub default: CVarValue,
}

impl CVarView {
    /// The value in effect: the value set, or else the default.
    pub open spec fn current(self) -> CVarValue {
        match self.value {
            Some(v) => v,
            None => self.default,
        }
    }
}

/// The value that the text `val` sets on a variable of kind `kind`, or `None`
/// when it does not parse as that kind. `float_bits` is what
/// `str::parse::<f32>` gives for `val`, as a bit pattern.
pub open spec fn spec_parse_for(kind: CVarKind, val: Seq<char>, float_bits: Option<u32>) -> Option<CVarValueView> {
    match kind {
        CVarKind::Bool => match spec_parse_bool(val) {
            Some(b) => Some(CVarValueView::Bool(b)),
            None => None,
        },
        CVarKind::Int => match spec_parse_i32(val) {
            Some(i) => Some(CVarValueView::Int(i)),
            None => None,
        },
        CVarKind::Float => match float_bits {
            Some(f) => Some(CVarValueView::Float(f)),
            None => None,
        },
        CVarKind::String => Some(CVarValueView::String(val)),
    }
}

/// Why setting a console variable failed.
#[derive(Debug, Clone, Copy, PartialEq, Eq, Structural)]
pub enum CVarError {
    /// No variable has that name.
    Unknown,
    /// The text is not a value of the variable's type.
    InvalidValue,
}

/// One line of the variable list.
pub struct CVarInfo {
    pub name: String,
    pub kind: CVarKind,
    pub help: String,
}

/// The set of defined console variables, by name.
pub struct CVarRegistry {
    entries: Vec<(String, CVar)>,
}

/// The position of the entry named `k`.
spec fn spec_index_of(entries: Seq<(String, CVar)>, k: Seq<char>) -> int {
    choose|i: int| 0 <= i < entries.len() && (#[trigger] entries[i]).0@ == k
}

spec fn spec_entry_view(c: CVar) -> CVarView {
    CVarView { help: c.help@, value: c.value, default: c.default }
}

spec fn spec_names_distinct(entries: Seq<(String, CVar)>) -> bool {
    forall|i: int, j: int| 0 <= i < entries.len() && 0 <= j < entries.len() && i != j
        ==> (#[trigger] entries[i]).0@ != (#[trigger] entries[j]).0@
}

/// The variables of a list of named entries whose names are distinct.
spec fn spec_registry_view(entries: Seq<(String, CVar)>) -> Map<Seq<char>, CVarView> {
    Map::new(
        |k: Seq<char>| exists|i: int| 0 <= i < entries.len() && (#[trigger] entries[i]).0@ == k,
        |k: Seq<char>| spec_entry_view(entries[spec_index_of(entries, k)].1),
    )
}

/// The entry at position `i` is the one that the view gives for its name.
proof fn lemma_view_at(entries: Seq<(String, CVar)>, i: int)
    requires
        0 <= i < entries.len(),
        spec_names_distinct(entries),
    ensures
        spec_registry_view(entries).contains_key(entries[i].0@),
        spec_registry_view(entries)[entries[i].0@] == spec_entry_view(entries[i].1),
{
    let k = entries[i].0@;
    assert(entries[i].0@ == k);
    let j = spec_index_of(entries, k);
    assert(j == i);
}

/// Replacing (or appending) the entry at position `i`, which is named
/// `name`, replaces the variable `name` in the view.
proof fn lemma_view_replace(old_e: Seq<(String, CVar)>, new_e: Seq<(String, CVar)>, i: int, name: Seq<char>)
    requires
        spec_names_distinct(old_e),
        spec_names_distinct(new_e),
        0 <= i < new_e.len(),
        new_e.len() == old_e.len() || (new_e.len() == old_e.len() + 1 && i == old_e.len()),
        new_e[i].0@ == name,
        i < old_e.len() ==> old_e[i].0@ == name,
        i == old_e.len() ==> forall|j: int| 0 <= j < old_e.len() ==> (#[trigger] old_e[j]).0@ != name,
        forall|j: int| 0 <= j < new_e.len() && j != i ==> new_e[j] == old_e[j],
    ensures
        spec_registry_view(new_e) == spec_registry_view(old_e).insert(name, spec_entry_view(new_e[i].1)),
{
    let nv = spec_registry_view(new_e);
    let ov = spec_registry_view(old_e).insert(name, spec_entry_view(new_e[i].1));
    assert forall|k: Seq<char>| nv.contains_key(k) implies ov.contains_key(k) && nv[k] == ov[k] by {
        let j = choose|j: int| 0 <= j < new_e.len() && (#[trigger] new_e[j]).0@ == k;
        lemma_view_at(new_e, j);
        if k != name {
            assert(j != i);
            assert(new_e[j] == old_e[j]);
            lemma_view_at(old_e, j);
        } else {
            assert(j == i);
        }
    }
    assert forall|k: Seq<char>| ov.contains_key(k) implies nv.contains_key(k) by {
        if k == name {
            lemma_view_at(new_e, i);
        } else {
            let j = choose|j: int| 0 <= j < old_e.len() && (#[trigger] old_e[j]).0@ == k;
            assert(j != i);
            assert(new_e[j] == old_e[j]);
            lemma_view_at(new_e, j);
        }
    }
    assert(nv =~= ov);
}

impl View for CVarRegistry {
    type V = Map<Seq<char>, CVarView>;

    closed spec fn view(&self) -> Map<Seq<char>, CVarView> {
        spec_registry_view(self.entries@)
    }
}

impl CVarRegistry {
    #[verifier::type_invariant]
    spec fn names_distinct(&self) -> bool {
        spec_names_distinct(self.entries@)
    }

    /// An empty registry.
    pub fn new() -> (r: CVarRegistry)
        ensures
            r@ == Map::<Seq<char>, CVarView>::empty(),
    {
        let r = CVarRegistry { entries: Vec::new() };
        assert(r@ =~= Map::<Seq<char>, CVarView>::empty());
        r
    }

    /// The position of the variable named `name`.
    fn find(&self, name: &str) -> (r: Option<usize>)
        ensures
            r matches Some(i) ==> i < self.entries@.len() && self.entries@[i as int].0@ == name@,
            r is None ==> forall|i: int| 0 <= i < self.entries@.len() ==> (#[trigger] self.entries@[i]).0@ != name@,
            r is Some <==> self@.contains_key(name@),
    {
        proof { use_type_invariant(self); }
        let mut i: usize = 0;
        while i < self.entries.len()
            invariant
                spec_names_distinct(self.entries@),
                i <= self.entries@.len(),
                forall|j: int| 0 <= j < i ==> (#[trigger] self.entries@[j]).0@ != name@,
            decreases self.entries@.len() - i,
        {
            if str_eq(self.entries[i].0.as_str(), name) {
                proof { lemma_view_at(self.entries@, i as int); }
                return Some(i);
            }
            i = i + 1;
        }
        None
    }
}

/// Defines the variable `name` with a default value and a help text,
/// replacing any variable of that name.
pub fn define_cvar(cvars: &mut CVarRegistry, name: &str, default_val: CVarValue, help: &str)
    ensures
        final(cvars)@ == old(cvars)@.insert(name@, CVarView { help: help@, value: None, default: default_val }),
{
    proof { use_type_invariant(&*cvars); }
    let ghost old_e = cvars.entries@;
    let entry = (name.to_string(), CVar { help: help.to_string(), value: None, default: default_val });
    let found = cvars.find(name);
    let mut entries: Vec<(String, CVar)> = Vec::new();
    std::mem::swap(&mut entries, &mut cvars.entries);
    match found {
        Some(i) => {
            entries.set(i, entry);
            proof {
                assert forall|a: int, b: int| 0 <= a < entries@.len() && 0 <= b < entries@.len() && a != b
                    implies (#[trigger] entries@[a]).0@ != (#[trigger] entries@[b]).0@ by {
                    if a != i && b != i {
                        assert(entries@[a] == old_e[a]);
                        assert(entries@[b] == old_e[b]);
                    } else if a == i {
                        assert(entries@[b] == old_e[b]);
                    } else {
                        assert(entries@[a] == old_e[a]);
                    }
                }
                lemma_view_replace(old_e, entries@, i as int, name@);
            }
        },
        None => {
            entries.push(entry);
            proof {
                let n = old_e.len() as int;
                assert forall|a: int, b: int| 0 <= a < entries@.len() && 0 <= b < entries@.len() && a != b
                    implies (#[trigger] entries@[a]).0@ != (#[trigger] entries@[b]).0@ by {
                    if a != n && b != n {
                        assert(entries@[a] == old_e[a]);
                        assert(entries@[b] == old_e[b]);
                    } else if a == n {
                        assert(entries@[b] == old_e[b]);
                    } else {
                        assert(entries@[a] == old_e[a]);
                    }
                }
                lemma_view_replace(old_e, entries@, n, name@);
            }
        },
    }
    cvars.entries = entries;
}

/// The name, type and help text of every defined variable, each once.
pub fn print_cvars(cvars: &CVarRegistry) -> (r: Vec<CVarInfo>)
    ensures
        forall|i: int| 0 <= i < r@.len() ==> {
            let c = #[trigger] r@[i];
            &&& cvars@.contains_key(c.name@)
            &&& c.kind == CVarKind::spec_of(cvars@[c.name@].default@)
            &&& c.help@ == cvars@[c.name@].help
        },
        forall|k: Seq<char>| #[trigger] cvars@.contains_key(k) ==> exists|i: int| 0 <= i < r@.len() && (#[trigger] r@[i]).name@ == k,
        forall|i: int, j: int| 0 <= i < r@.len() && 0 <= j < r@.len() && i != j ==> (#[trigger] r@[i]).name@ != (#[trigger] r@[j]).name@,
{
    proof { use_type_invariant(cvars); }
    let mut r: Vec<CVarInfo> = Vec::new();
    let mut i: usize = 0;
    while i < cvars.entries.len()
        invariant
            spec_names_distinct(cvars.entries@),
            i <= cvars.entries@.len(),
            r@.len() == i,
            forall|j: int| 0 <= j < i ==> (#[trigger] r@[j]).name@ == cvars.entries@[j].0@
                && r@[j].kind == CVarKind::spec_of(cvars.entries@[j].1.default@)
                && r@[j].help@ == cvars.entries@[j].1.help@,
        decreases cvars.entries@.len() - i,
    {
        let kind = match &cvars.entries[i].1.default {
            CVarValue::Bool(_) => CVarKind::Bool,
            CVarValue::Int(_) => CVarKind::Int,
            CVarValue::Float(_) => CVarKind::Float,
            CVarValue::String(_) => CVarKind::String,
        };
        r.push(CVarInfo {
            name: cvars.entries[i].0.clone(),
            kind,
            help: cvars.entries[i].1.help.clone(),
        });
        i = i + 1;
    }
    proof {
        assert forall|j: int| 0 <= j < r@.len() implies {
            let c = #[trigger] r@[j];
            &&& cvars@.contains_key(c.name@)
            &&& c.kind == CVarKind::spec_of(cvars@[c.name@].default@)
            &&& c.help@ == cvars@[c.name@].help
        } by {
            lemma_view_at(cvars.entries@, j);
        }
        assert forall|k: Seq<char>| #[trigger] cvars@.contains_key(k) implies exists|i: int| 0 <= i < r@.len() && (#[trigger] r@[i]).name@ == k by {
            let j = choose|j: int| 0 <= j < cvars.entries@.len() && (#[trigger] cvars.entries@[j]).0@ == k;
            assert(r@[j].name@ == k);
        }
    }
    r
}

/// `after` is `before` with the variable `name` set from the text `val`:
/// only that variable changes, and only in its value, which becomes the one
/// that `val` denotes for the variable's type.
pub open spec fn spec_set_applied(
    before: Map<Seq<char>, CVarView>,
    after: Map<Seq<char>, CVarView>,
    name: Seq<char>,
    val: Seq<char>,
    val_as_f32_bits: Option<u32>,
) -> bool {
    let c = before[name];
    let n = after[name];
    &&& after.contains_key(name)
    &&& after.remove(name) == before.remove(name)
    &&& n.help == c.help
    &&& n.default == c.default
    &&& n.value matches Some(v) && spec_parse_for(CVarKind::spec_of(c.default@), val, val_as_f32_bits) == Some(v@)
}

/// Sets the variable `name` from the text `val`, parsed as the variable's
/// type. `val_as_f32_bits` is what `str::parse::<f32>` gives for `val`, as a
/// bit pattern; only a float variable reads it.
pub fn set_cvar(cvars: &mut CVarRegistry, name: &str, val: &str, val_as_f32_bits: Option<u32>) -> (r: Result<(), CVarError>)
    ensures
        r == Err::<(), CVarError>(CVarError::Unknown) <==> !old(cvars)@.contains_key(name@),
        r == Err::<(), CVarError>(CVarError::InvalidValue) <==> old(cvars)@.contains_key(name@)
            && spec_parse_for(CVarKind::spec_of(old(cvars)@[name@].default@), val@, val_as_f32_bits) is None,
        r is Err ==> final(cvars)@ == old(cvars)@,
        r is Ok ==> spec_set_applied(old(cvars)@, final(cvars)@, name@, val@, val_as_f32_bits),
{
    proof { use_type_invariant(&*cvars); }
    let ghost old_e = cvars.entries@;
    let i = match cvars.find(name) {
        Some(i) => i,
        None => return Err(CVarError::Unknown),
    };
    proof { lemma_view_at(old_e, i as int); }
    let value = match &cvars.entries[i].1.default {
        CVarValue::Bool(_) => match parse_bool(val) {
            Some(b) => CVarValue::Bool(b),
            None => return Err(CVarError::InvalidValue),
        },
        CVarValue::Int(_) => match parse_i32(val) {
            Some(v) => CVarValue::Int(v),
            None => return Err(CVarError::InvalidValue),
        },
        CVarValue::Float(_) => match val_as_f32_bits {
            Some(f) => CVarValue::Float(f),
            None => return Err(CVarError::InvalidValue),
        },
        CVarValue::String(_) => CVarValue::String(val.to_string()),
    };
    let entry = (cvars.entries[i].0.clone(), CVar {
        help: cvars.entries[i].1.help.clone(),
        value: Some(value),
        default: cvars.entries[i].1.default.copy(),
    });
    let mut entries: Vec<(String, CVar)> = Vec::new();
    std::mem::swap(&mut entries, &mut cvars.entries);
    entries.set(i, entry);
    proof {
        assert forall|a: int, b: int| 0 <= a < entries@.len() && 0 <= b < entries@.len() && a != b
            implies (#[trigger] entries@[a]).0@ != (#[trigger] entries@[b]).0@ by {
            if a != i && b != i {
                assert(entries@[a] == old_e[a]);
                assert(entries@[b] == old_e[b]);
            } else if a == i {
                assert(entries@[b] == old_e[b]);
            } else {
                assert(entries@[a] == old_e[a]);
            }
        }
        lemma_view_replace(old_e, entries@, i as int, name@);
    }
    cvars.entries = entries;
    assert(cvars@.remove(name@) =~= old(cvars)@.remove(name@));
    Ok(())
}

/// The value in effect of the variable `name`, or `None` when no variable
/// has that name.
pub fn cvar_value<'a>(cvars: &'a CVarRegistry, name: &str) -> (r: Option<&'a CVarValue>)
    ensures
        r is Some <==> cvars@.contains_key(name@),
        r matches Some(v) ==> *v == cvars@[name@].current(),
{
    proof { use_type_invariant(cvars); }
    match cvars.find(name) {
        Some(i) => {
            proof { lemma_view_at(cvars.entries@, i as int); }
            match &cvars.entries[i].1.value {
                Some(v) => Some(v),
                None => Some(&cvars.entries[i].1.default),
            }
        },
        None => None,
    }
}

/// The value in effect of the variable `name`, read as a `T`.
pub fn get_cvar<T>(cvars: &CVarRegistry, name: &str) -> (r: T)
    where CVarValue: GetCVar<T>
    requires
        cvars@.contains_key(name@),
        cvars@[name@].current().spec_can_get(),
    ensures
        r == cvars@[name@].current().spec_get(),
{
    proof { use_type_invariant(cvars); }
    let i = match cvars.find(name) {
        Some(i) => i,
        None => {
            proof { assert(false); }
            return cvars.entries[0].1.default.get();
        },
    };
    proof { lemma_view_at(cvars.entries@, i as int); }
    match &cvars.entries[i].1.value {
        Some(v) => v.get(),
        None => cvars.entries[i].1.default.get(),
    }
}

/// Reading a variable right after defining it gives its default value.
pub proof fn law_define_then_read(before: Map<Seq<char>, CVarView>, name: Seq<char>, help: Seq<char>, default_val: CVarValue)
    ensures
        ({
            let after = before.insert(name, CVarView { help, value: None, default: default_val });
            &&& after.contains_key(name)
            &&& after[name].current() == default_val
        }),
{
}

/// Reading an integer variable right after setting it from a text gives the
/// integer the text denotes.
pub proof fn law_set_then_read_int(
    before: Map<Seq<char>, CVarView>,
    after: Map<Seq<char>, CVarView>,
    name: Seq<char>,
    val: Seq<char>,
    bits: Option<u32>,
)
    requires
        before.contains_key(name),
        before[name].default is Int,
        spec_set_applied(before, after, name, val, bits),
    ensures
        spec_parse_i32(val) is Some,
        <CVarValue as GetCVar<i32>>::spec_can_get(&after[name].current()),
        <CVarValue as GetCVar<i32>>::spec_get(&after[name].current()) == spec_parse_i32(val)->0,
{
}

/// Reading a boolean variable right after setting it from a text gives the
/// boolean the text denotes.
pub proof fn law_set_then_read_bool(
    before: Map<Seq<char>, CVarView>,
    after: Map<Seq<char>, CVarView>,
    name: Seq<char>,
    val: Seq<char>,
    bits: Option<u32>,
)
    requires
        before.contains_key(name),
        before[name].default is Bool,
        spec_set_applied(before, after, name, val, bits),
    ensures
        spec_parse_bool(val) is Some,
        <CVarValue as GetCVar<bool>>::spec_can_get(&after[name].current()),
        <CVarValue as GetCVar<bool>>::spec_get(&after[name].current()) == spec_parse_bool(val)->0,
{
}

/// Reading values as integers and as booleans agree: a boolean reads back as
/// itself, and as an integer it is 1 when true and 0 when false, so the
/// integer read is not zero exactly when the boolean read is true; for an
/// integer value too, the boolean read is true exactly when it is not zero.
pub proof fn law_int_and_bool_reads_agree(b: bool, x: i32)
    ensures
        <CVarValue as GetCVar<bool>>::spec_get(&CVarValue::Bool(b)) == b,
        0 <= <CVarValue as GetCVar<i32>>::spec_get(&CVarValue::Bool(b)) <= 1,
        (<CVarValue as GetCVar<i32>>::spec_get(&CVarValue::Bool(b)) != 0)
            == <CVarValue as GetCVar<bool>>::spec_get(&CVarValue::Bool(b)),
        <CVarValue as GetCVar<i32>>::spec_get(&CVarValue::Int(x)) == x,
        (<CVarValue as GetCVar<i32>>::spec_get(&CVarValue::Int(x)) != 0)
            == <CVarValue as GetCVar<bool>>::spec_get(&CVarValue::Int(x)),
        <CVarValue as GetCVar<i32>>::spec_can_get(&CVarValue::Bool(b)),
        <CVarValue as GetCVar<bool>>::spec_can_get(&CVarValue::Int(x)),
{
}

/// The digit `d` is a decimal digit character worth `d`.
proof fn lemma_digit_char(d: nat)
    requires
        d < 10,
    ensures
        spec_is_digit(spec_digit_char(d)),
        spec_digit_char(d) as int - '0' as int == d,
{
    assert('0' as int == 48 && '1' as int == 49 && '2' as int == 50 && '3' as int == 51 && '4' as int == 52
        && '5' as int == 53 && '6' as int == 54 && '7' as int == 55 && '8' as int == 56 && '9' as int == 57);
}

/// The decimal digits of `n` are digits, at least one, and read back as `n`.
pub proof fn lemma_decimal_reads_back(n: nat)
    ensures
        spec_decimal(n).len() > 0,
        spec_all_digits(spec_decimal(n)),
        spec_digits_value(spec_decimal(n)) == n,
    decreases n,
{
    if n < 10 {
        lemma_digit_char(n);
        let s = spec_decimal(n);
        assert(s.drop_last() =~= Seq::<char>::empty());
        assert(spec_digits_value(Seq::<char>::empty()) == 0);
        assert(s.last() == spec_digit_char(n));
        assert(spec_digits_value(s) == 10 * spec_digits_value(s.drop_last()) + (s.last() as int - '0' as int));
    } else {
        lemma_decimal_reads_back(n / 10);
        lemma_digit_char(n % 10);
        let s = spec_decimal(n);
        let t = spec_decimal(n / 10);
        assert(s.drop_last() =~= t);
        assert(s.last() == spec_digit_char(n % 10));
        assert(spec_digits_value(s) == 10 * spec_digits_value(s.drop_last()) + (s.last() as int - '0' as int));
        assert(n == 10 * (n / 10) + n % 10);
        assert forall|i: int| 0 <= i < s.len() implies spec_is_digit(#[trigger] s[i]) by {
            if i < t.len() {
                assert(s[i] == t[i]);
            }
        }
    }
}

/// The text a console variable shows for an integer or a boolean reads back,
/// as `str::parse` reads it (which is how `set` reads a value), as that same
/// integer or boolean.
pub proof fn law_value_text_reads_back(i: i32, b: bool)
    ensures
        spec_parse_i32(spec_int_text(i as int)) == Some(i),
        spec_parse_bool(spec_bool_text(b)) == Some(b),
{
    if i < 0 {
        let m = (-i) as nat;
        lemma_decimal_reads_back(m);
        let t = spec_int_text(i as int);
        assert(t.drop_first() =~= spec_decimal(m));
        assert(t[0] == '-');
    } else {
        let m = i as nat;
        lemma_decimal_reads_back(m);
        let t = spec_int_text(i as int);
        assert(spec_is_digit(t[0]));
    }
}

/// Setting a variable leaves every other variable as it was.
pub proof fn law_set_keeps_others(
    before: Map<Seq<char>, CVarView>,
    after: Map<Seq<char>, CVarView>,
    name: Seq<char>,
    other: Seq<char>,
    val: Seq<char>,
    bits: Option<u32>,
)
    requires
        spec_set_applied(before, after, name, val, bits),
        other != name,
    ensures
        after.contains_key(other) == before.contains_key(other),
        before.contains_key(other) ==> after[other] == before[other],
{
    assert(after.remove(name).contains_key(other) == after.contains_key(other));
    assert(before.remove(name).contains_key(other) == before.contains_key(other));
    if before.contains_key(other) {
        assert(after.remove(name)[other] == after[other]);
        assert(before.remove(name)[other] == before[other]);
    }
}

} // verus!
