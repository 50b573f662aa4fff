//! Shader programs.
use vstd::prelude::*;
use crate::text::{concat, str_eq};

verus! {

/// A linked GL shader program.
pub struct Shader {
    handle: u32,
}

impl Shader {
    pub closed spec fn spec_handle(&self) -> u32 {
        self.handle
    }

    /// The shader held by the GL program object `handle`.
    pub fn new(handle: u32) -> (s: Shader)
        ensures
            s.spec_handle() == handle,
    {
        Shader { handle }
    }

    pub fn handle(&self) -> (r: u32)
        ensures
            r == self.spec_handle(),
    {
        self.handle
    }
}

/// The top-level entries of a TOML document, each key with its value when
/// that value is a string (`None` for any other value), in the order the
/// parsed table holds them; `None` when the text is not valid TOML.
pub uninterp spec fn toml_table_strings(text: Seq<char>) -> Option<Seq<(Seq<char>, Option<Seq<char>>)>>;

/// `str::parse::<toml::Table>`, keeping each top-level key and its string
/// value (`Value::as_str`).
/// Trusted: the table is named, not described.
#[verifier::external_body]
fn parse_toml_strings(text: &str) -> (r: Option<Vec<(String, Option<String>)>>)
    ensures
        r is None <==> toml_table_strings(text@) is None,
        r matches Some(v) ==> v@.map_values(|p: (String, Option<String>)| (p.0@, match p.1 {
            Some(s) => Some(s@),
            None => None,
        })) == toml_table_strings(text@)->0,
{
    let table = text.parse::<toml::Table>().ok()?;
    Some(table.iter().map(|(k, v)| (k.clone(), v.as_str().map(|s| s.to_string()))).collect())
}

/// The entry for `key` among `entries`: `None` when there is none, else
/// whether its value is a string and which.
pub open spec fn spec_toml_lookup(entries: Seq<(Seq<char>, Option<Seq<char>>)>, key: Seq<char>) -> Option<Option<Seq<char>>>
    decreases entries.len(),
{
    if entries.len() == 0 {
        None
    } else if entries[0].0 == key {
        Some(entries[0].1)
    } else {
        spec_toml_lookup(entries.drop_first(), key)
    }
}

/// The text put before each shader stage's source.
pub open spec fn spec_shader_preamble() -> Seq<char> {
    "#version 100\nprecision highp float;\n\n"@
}

/// Why a shader description could not be read.
#[derive(Debug, Clone, Copy, PartialEq, Eq, Structural)]
pub enum ShaderSourceError {
    /// The text is not TOML, or a stage's source is not a string.
    ParseError,
    /// The description has no entry for a stage.
    MissingStage,
}

/// The vertex (`vs`) and fragment (`ps`) sources that a shader description
/// gives, each with the preamble before it; `vs` is looked at first.
pub open spec fn spec_shader_sources(text: Seq<char>) -> Result<(Seq<char>, Seq<char>), ShaderSourceError> {
    match toml_table_strings(text) {
        None => Err(ShaderSourceError::ParseError),
        Some(t) => {
            let vs = spec_toml_lookup(t, "vs"@);
            let ps = spec_toml_lookup(t, "ps"@);
            if vs is None {
                Err(ShaderSourceError::MissingStage)
            } else if vs->0 is None {
                Err(ShaderSourceError::ParseError)
            } else if ps is None {
                Err(ShaderSourceError::MissingStage)
            } else if ps->0 is None {
                Err(ShaderSourceError::ParseError)
            } else {
                Ok((spec_shader_preamble() + vs->0->0, spec_shader_preamble() + ps->0->0))
            }
        },
    }
}

/// The entry for `key` among `entries`.
fn toml_lookup(entries: &Vec<(String, Option<String>)>, key: &str) -> (r: Option<Option<String>>)
    ensures
        ({
            let ev = entries@.map_values(|p: (String, Option<String>)| (p.0@, match p.1 {
                Some(s) => Some(s@),
                None => None,
            }));
            &&& r is None <==> spec_toml_lookup(ev, key@) is None
            &&& r matches Some(o) ==> (o is None <==> spec_toml_lookup(ev, key@)->0 is None)
            &&& r matches Some(Some(s)) ==> spec_toml_lookup(ev, key@)->0 == Some(s@)
        }),
{
    let ghost ev = entries@.map_values(|p: (String, Option<String>)| (p.0@, match p.1 {
        Some(s) => Some(s@),
        None => None,
    }));
    let mut i: usize = 0;
    assert(ev.skip(0) =~= ev);
    while i < entries.len()
        invariant
            i <= entries@.len(),
            ev.len() == entries@.len(),
            ev == entries@.map_values(|p: (String, Option<String>)| (p.0@, match p.1 {
                Some(s) => Some(s@),
                None => None,
            })),
            spec_toml_lookup(ev, key@) == spec_toml_lookup(ev.skip(i as int), key@),
        decreases entries@.len() - i,
    {
        let ghost rest = ev.skip(i as int);
        assert(rest[0] == ev[i as int]);
        assert(rest.drop_first() =~= ev.skip(i + 1));
        if str_eq(entries[i].0.as_str(), key) {
            return Some(entries[i].1.clone());
        }
        i = i + 1;
    }
    assert(ev.skip(i as int) =~= Seq::<(Seq<char>, Option<Seq<char>>)>::empty());
    None
}

/// The stage sources of a shader description: the TOML keys `vs` and `ps`
/// hold the vertex and fragment sources, each of which gets the GLSL ES 1.0
/// preamble.
pub fn shader_sources(text: &str) -> (r: Result<(String, String), ShaderSourceError>)
    ensures
        r matches Ok(p) ==> spec_shader_sources(text@) == Ok::<(Seq<char>, Seq<char>), ShaderSourceError>((p.0@, p.1@)),
        r matches Err(e) ==> spec_shader_sources(text@) == Err::<(Seq<char>, Seq<char>), ShaderSourceError>(e),
{
    let entries = match parse_toml_strings(text) {
        Some(e) => e,
        None => return Err(ShaderSourceError::ParseError),
    };
    let vs = match toml_lookup(&entries, "vs") {
        None => return Err(ShaderSourceError::MissingStage),
        Some(None) => return Err(ShaderSourceError::ParseError),
        Some(Some(s)) => s,
    };
    let ps = match toml_lookup(&entries, "ps") {
        None => return Err(ShaderSourceError::MissingStage),
        Some(None) => return Err(ShaderSourceError::ParseError),
        Some(Some(s)) => s,
    };
    let preamble = "#version 100\nprecision highp float;\n\n";
    assert(preamble@ == spec_shader_preamble());
    Ok((concat(preamble, vs.as_str()), concat(preamble, ps.as_str())))
}

} // verus!
