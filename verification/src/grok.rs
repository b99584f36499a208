//! The library's entry points: the definition registry (`Grok`), the
//! expander/compiler (`Grok::compile`), the compiled pattern (`Pattern`) and
//! the view over one match (`Matches`).

use vstd::prelude::*;
use vstd::string::StringExecFns;

use crate::dict::{lookup, Dict};
use crate::engine::{
    cap_count, cap_named, captures_count, captures_name, chars_of, regex_captures, regex_match,
    regex_new, regex_ok, regex_src, string_of,
};
use crate::expand::{
    compile_model, do_substs, expand_loop, index_exhausted_msg, max_index, max_recursion, nameof,
    frag_of, CompileModel, EState, Expansion, GErr, Substs,
};
use crate::parser::{find_ph_from, find_placeholder, lemma_ph_at_bounds, ph_at, ph_parts_of};
use crate::text::{
    append_chars, copy_chars, count_occurrences, push_dec, replace_first, subvec,
};

verus! {

/// An error raised while compiling a pattern. Matching raises no error: a
/// pattern that matches nowhere yields no match result.
#[derive(Clone, Debug, PartialEq)]
#[non_exhaustive]
pub enum Error {
    /// The recursion while compiling has exhausted the limit.
    RecursionTooDeep,
    /// After compiling, the resulting compiled regex pattern is empty.
    CompiledPatternIsEmpty(String),
    /// A corresponding pattern definition could not be found for the given name.
    DefinitionNotFound(String),
    /// The compilation for a specific regex in the underlying engine failed.
    RegexCompilationFailed(String),
    /// Something is messed up during the compilation phase.
    GenericCompilationFailure(String),
}

impl View for Error {
    type V = GErr;

    closed spec fn view(&self) -> GErr {
        match self {
            Error::RecursionTooDeep => GErr::Recursion,
            Error::CompiledPatternIsEmpty(s) => GErr::Empty(s@),
            Error::DefinitionNotFound(s) => GErr::NotFound(s@),
            Error::RegexCompilationFailed(s) => GErr::RegexFailed(s@),
            Error::GenericCompilationFailure(s) => GErr::Generic(s@),
        }
    }
}

/// The human-readable description of an error: a fixed text per kind,
/// followed by the carried datum.
pub open spec fn err_msg(g: GErr) -> Seq<char> {
    match g {
        GErr::Recursion => "recursion while compiling reached the limit"@,
        GErr::Empty(p) => "the pattern compiled into an empty regex: "@ + p,
        GErr::NotFound(n) => "no definition was found for the name: "@ + n,
        GErr::RegexFailed(r) => "the engine rejected the regex: "@ + r,
        GErr::Generic(d) => "unexpected failure while compiling: "@ + d,
    }
}

impl Error {
    /// A human-readable description of this error.
    pub fn message(&self) -> (r: String)
        ensures
            r@ == err_msg(self@),
    {
        match self {
            Error::RecursionTooDeep => "recursion while compiling reached the limit".to_owned(),
            Error::CompiledPatternIsEmpty(p) => {
                let mut s = "the pattern compiled into an empty regex: ".to_owned();
                s.append(p.as_str());
                s
            },
            Error::DefinitionNotFound(n) => {
                let mut s = "no definition was found for the name: ".to_owned();
                s.append(n.as_str());
                s
            },
            Error::RegexCompilationFailed(re) => {
                let mut s = "the engine rejected the regex: ".to_owned();
                s.append(re.as_str());
                s
            },
            Error::GenericCompilationFailure(d) => {
                let mut s = "unexpected failure while compiling: ".to_owned();
                s.append(d.as_str());
                s
            },
        }
    }
}

pub open spec fn opt_text(o: Option<&str>) -> Option<Seq<char>> {
    match o {
        Some(s) => Some(s@),
        None => None,
    }
}

/// Matched results of a `Pattern` against one text: the engine's captures
/// plus the pattern's alias map.
#[derive(Debug)]
pub struct Matches<'a> {
    captures: regex::Captures<'a>,
    alias: &'a Dict,
}

impl<'a> Matches<'a> {
    /// The engine captures this view reads.
    pub closed spec fn caps(&self) -> regex::Captures<'a> {
        self.captures
    }

    /// The alias map this view resolves names through.
    pub closed spec fn alias_map(&self) -> Map<Seq<char>, Seq<char>> {
        self.alias@
    }

    /// Instantiates the matches for a pattern after the match.
    pub fn new(captures: regex::Captures<'a>, alias: &'a Dict) -> (m: Matches<'a>)
        ensures
            m.caps() == captures,
            m.alias_map() == alias@,
    {
        Matches { captures, alias }
    }

    /// The text captured for the name (or) alias, if both the alias map and
    /// the captures know it; `None` otherwise. For every user-visible name the
    /// alias map binds, the result is exactly the engine's capture under the
    /// bound internal `name<N>`: the alias round-trip.
    pub fn get(&self, name_or_alias: &str) -> (r: Option<&str>)
        ensures
            match lookup(self.alias_map(), name_or_alias@) {
                Some(internal) => opt_text(r) == cap_named(self.caps(), internal),
                None => r is None,
            },
    {
        let k = chars_of(name_or_alias);
        match self.alias.get(&k) {
            Some(internal) => {
                let s = string_of(internal);
                captures_name(&self.captures, s.as_str())
            },
            None => None,
        }
    }

    /// The number of capture groups of the match, the whole-match group
    /// excluded.
    pub fn len(&self) -> (r: usize)
        ensures
            r as nat == cap_count(self.caps()) - 1,
            cap_count(self.caps()) >= 1,
    {
        captures_count(&self.captures) - 1
    }

    /// Whether the match has no capture groups beyond the whole match.
    pub fn is_empty(&self) -> (r: bool)
        ensures
            r == (cap_count(self.caps()) == 1),
    {
        self.len() == 0
    }
}

/// A compiled pattern: the engine's compiled regex plus the alias map built
/// during expansion. Immutable and reusable.
#[derive(Debug)]
pub struct Pattern {
    regex: regex::Regex,
    alias: Dict,
}

impl Pattern {
    /// The flat regex string this pattern was compiled from.
    pub closed spec fn flat(&self) -> Seq<char> {
        regex_src(self.regex)
    }

    /// The alias map: user-visible name to internal capture-group name.
    pub closed spec fn alias_map(&self) -> Map<Seq<char>, Seq<char>> {
        self.alias@
    }

    /// Creates a new pattern from a raw regex string and an alias map to
    /// identify the fields properly.
    pub fn new(regex: &str, alias: Dict) -> (r: Result<Pattern, Error>)
        ensures
            r is Ok <==> regex_ok(regex@),
            r matches Ok(p) ==> p.flat() == regex@ && p.alias_map() == alias@,
            r matches Err(e) ==> e@ == GErr::RegexFailed(regex@),
    {
        match regex_new(regex) {
            Some(rx) => Ok(Pattern { regex: rx, alias }),
            None => Err(Error::RegexCompilationFailed(regex.to_owned())),
        }
    }

    /// Matches this compiled `Pattern` against the text and returns the
    /// matches of the leftmost occurrence, or `None` when the regex matches
    /// nowhere in the text.
    pub fn match_against<'a>(&'a self, text: &'a str) -> (r: Option<Matches<'a>>)
        ensures
            r is Some <==> regex_match(self.flat(), text@),
            r matches Some(m) ==> m.alias_map() == self.alias_map(),
    {
        match regex_captures(&self.regex, text) {
            Some(c) => Some(Matches::new(c, &self.alias)),
            None => None,
        }
    }
}

/// The basic structure to manage patterns, entry point for common usage. Its
/// view is the definition registry: a map from definition name to raw regex
/// fragment.
#[derive(Debug)]
pub struct Grok {
    definitions: Dict,
}

impl View for Grok {
    type V = Map<Seq<char>, Seq<char>>;

    closed spec fn view(&self) -> Map<Seq<char>, Seq<char>> {
        self.definitions@
    }
}

/// The internal capture-group name for index `index`, as text.
fn build_name(index: usize) -> (r: Vec<char>)
    ensures
        r@ == nameof(index as nat),
{
    let mut iname: Vec<char> = Vec::new();
    iname.push('n');
    iname.push('a');
    iname.push('m');
    iname.push('e');
    push_dec(index, &mut iname);
    proof {
        reveal_strlit("name");
        assert(iname@ =~= nameof(index as nat));
    }
    iname
}

/// The replacement text for one placeholder occurrence: a named capture group
/// around `body` when `capture` holds, a non-capturing group otherwise.
fn build_fragment(body: &Vec<char>, index: usize, capture: bool) -> (r: Vec<char>)
    ensures
        r@ == frag_of(body@, index as nat, capture),
{
    let mut frag: Vec<char> = Vec::new();
    if capture {
        frag.push('(');
        frag.push('?');
        frag.push('P');
        frag.push('<');
        frag.push('n');
        frag.push('a');
        frag.push('m');
        frag.push('e');
        push_dec(index, &mut frag);
        frag.push('>');
        append_chars(&mut frag, body);
        frag.push(')');
        proof {
            reveal_strlit("(?P<");
            reveal_strlit("name");
            reveal_strlit(">");
            reveal_strlit(")");
            assert(frag@ =~= frag_of(body@, index as nat, capture));
        }
    } else {
        frag.push('(');
        frag.push('?');
        frag.push(':');
        append_chars(&mut frag, body);
        frag.push(')');
        proof {
            reveal_strlit("(?:");
            reveal_strlit(")");
            assert(frag@ =~= frag_of(body@, index as nat, capture));
        }
    }
    frag
}

impl Grok {
    /// Creates a new `Grok` instance with no patterns.
    pub fn empty() -> (g: Grok)
        ensures
            g@ == Map::<Seq<char>, Seq<char>>::empty(),
    {
        Grok { definitions: Dict::new() }
    }

    /// Inserts a custom pattern, overwriting any prior entry under `name`.
    pub fn insert_definition(&mut self, name: &str, pattern: &str)
        ensures
            final(self)@ == old(self)@.insert(name@, pattern@),
    {
        let k = chars_of(name);
        let v = chars_of(pattern);
        self.definitions.insert(k, v);
    }

    /// Compiles the given pattern, making it ready for matching.
    ///
    /// The returned value is exactly what the specification-level expander
    /// (`compile_model`) gives for this pattern against the current registry:
    /// the same flat regex, alias map, registry growth from inline
    /// definitions, and error. Whether the engine accepts the flat regex of a
    /// successful expansion is the engine's decision; everything else is
    /// pinned. A compiled pattern's flat regex holds no placeholder.
    #[verifier::loop_isolation(false)]
    #[verifier::rlimit(60)]
    pub fn compile(&mut self, pattern: &str, with_alias_only: bool) -> (r: Result<Pattern, Error>)
        ensures
            ({
                let m = compile_model(pattern@, old(self)@, with_alias_only);
                match m {
                    CompileModel::Refused { err, defs } => {
                        &&& final(self)@ == defs
                        &&& r matches Err(e) && e@ == err
                    },
                    CompileModel::Compiled { flat, defs, alias } => {
                        &&& final(self)@ == defs
                        &&& (r is Ok <==> regex_ok(flat))
                        &&& (r matches Ok(p) ==> p.flat() == flat && p.alias_map() == alias)
                        &&& (r matches Err(e) ==> e@ == GErr::RegexFailed(flat))
                    },
                }
            }),
            r matches Ok(p) ==> find_ph_from(p.flat(), 0) is None,
    {
        let ghost st0 = EState {
            w: pattern@,
            defs: old(self)@,
            alias: Map::empty(),
            idx: 0,
            left: max_recursion(),
        };
        let ghost target = expand_loop(st0, with_alias_only);

        let mut w: Vec<char> = chars_of(pattern);
        let mut alias = Dict::new();
        let mut index: usize = 0;
        let mut left: usize = 1024;
        let mut cont: bool = true;

        while cont
            invariant
                cont ==> expand_loop(
                    EState {
                        w: w@,
                        defs: self@,
                        alias: alias@,
                        idx: index as nat,
                        left: left as nat,
                    },
                    with_alias_only,
                ) == target,
                !cont ==> target == (Expansion::Done {
                    w: w@,
                    defs: self@,
                    alias: alias@,
                    idx: index as nat,
                }),
                !cont ==> find_ph_from(w@, 0) is None,
            decreases left,
        {
            let ghost stp = EState {
                w: w@,
                defs: self@,
                alias: alias@,
                idx: index as nat,
                left: left as nat,
            };
            cont = false;
            if left == 0 {
                return Err(Error::RecursionTooDeep);
            }
            left -= 1;
            match find_placeholder(&w) {
                None => {},
                Some(ph) => {
                    cont = true;
                    proof {
                        lemma_ph_at_bounds(w@, ph.start as int);
                    }
                    let ghost p = ph_at(w@, ph.start as int)->Some_0;
                    // materialize the length so the position arithmetic below
                    // is known to stay within the machine's integer range
                    let _wn = w.len();
                    let raw = subvec(&w, ph.start + 2, ph.name_end);
                    if let Some((ds, de)) = ph.def {
                        let defbody = subvec(&w, ds, de);
                        let raw2 = copy_chars(&raw);
                        self.definitions.insert(raw2, defbody);
                    }
                    let body: Vec<char> = match self.definitions.get(&raw) {
                        Some(b) => copy_chars(b),
                        None => {
                            return Err(Error::DefinitionNotFound(string_of(&raw)));
                        },
                    };
                    let lit = subvec(&w, ph.start, ph.end);
                    let n = count_occurrences(&w, &lit);
                    let capture = !(with_alias_only && ph.alias.is_none());
                    let key: Vec<char> = match ph.alias {
                        Some((a, b)) => subvec(&w, a, b),
                        None => subvec(&w, ph.start + 2, ph.end - 1),
                    };
                    let ghost starget = do_substs(
                        stp.w,
                        stp.alias,
                        stp.idx,
                        n as nat,
                        lit@,
                        body@,
                        key@,
                        capture,
                    );
                    proof {
                        assert(expand_loop(stp, with_alias_only) == (match starget {
                            Substs::Overflow => Expansion::Failed {
                                err: GErr::Generic(index_exhausted_msg()),
                                defs: self@,
                            },
                            Substs::Made { w: w2, alias: a2, idx: i2 } => expand_loop(
                                EState {
                                    w: w2,
                                    defs: self@,
                                    alias: a2,
                                    idx: i2,
                                    left: left as nat,
                                },
                                with_alias_only,
                            ),
                        }));
                    }
                    let mut j: usize = 0;
                    while j < n
                        invariant
                            j <= n,
                            do_substs(
                                w@,
                                alias@,
                                index as nat,
                                (n - j) as nat,
                                lit@,
                                body@,
                                key@,
                                capture,
                            ) == starget,
                        decreases n - j,
                    {
                        if index == usize::MAX {
                            return Err(Error::GenericCompilationFailure(
                                "capture index exhausted".to_owned(),
                            ));
                        }
                        let frag = build_fragment(&body, index, capture);
                        let iname = build_name(index);
                        let key2 = copy_chars(&key);
                        alias.insert(key2, iname);
                        w = replace_first(w, &lit, &frag);
                        index += 1;
                        j += 1;
                    }
                },
            }
        }
        if w.len() == 0 {
            return Err(Error::CompiledPatternIsEmpty(pattern.to_owned()));
        }
        let flat = string_of(&w);
        Pattern::new(flat.as_str(), alias)
    }
}

impl Default for Grok {
    /// Creates a new `Grok` instance with no patterns.
    fn default() -> (g: Grok)
        ensures
            g@ == Map::<Seq<char>, Seq<char>>::empty(),
    {
        Grok::empty()
    }
}

} // verus!
